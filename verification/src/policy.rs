//! The extension denylist and the payload size cap, applied to every
//! upload before anything is written.

use vstd::prelude::*;

use crate::scan::eq_bytes;
use vstd::string::StrSliceExecFns;

verus! {

/// Uploads whose payload exceeds this many bytes are rejected.
pub const SIZE_LIMIT: usize = 512000000;

/// Index of the last occurrence of byte `b` in `s`, if any.
pub open spec fn last_index_of(s: Seq<u8>, b: u8) -> Option<int>
    decreases s.len(),
{
    if s.len() == 0 {
        None
    } else if s[s.len() - 1] == b {
        Some(s.len() - 1)
    } else {
        last_index_of(s.drop_last(), b)
    }
}

/// `last_index_of` returns exactly the last position holding `b`.
pub proof fn lemma_last_index_of_props(s: Seq<u8>, b: u8)
    ensures
        match last_index_of(s, b) {
            Some(i) => 0 <= i < s.len() && s[i] == b && (forall|j: int|
                i < j < s.len() ==> s[j] != b),
            None => forall|j: int| 0 <= j < s.len() ==> s[j] != b,
        },
    decreases s.len(),
{
    if s.len() > 0 && s[s.len() - 1] != b {
        lemma_last_index_of_props(s.drop_last(), b);
        assert forall|j: int| 0 <= j < s.len() - 1 implies s[j] == s.drop_last()[j] by {}
    }
}

/// If `i` is a position of `b` with none after it, `last_index_of` finds `i`.
pub proof fn lemma_last_index_of_at(s: Seq<u8>, b: u8, i: int)
    requires
        0 <= i < s.len(),
        s[i] == b,
        forall|j: int| i < j < s.len() ==> s[j] != b,
    ensures
        last_index_of(s, b) == Some(i),
    decreases s.len(),
{
    if i < s.len() - 1 {
        lemma_last_index_of_at(s.drop_last(), b, i);
    }
}

/// Last index holding `b` in `v`, searching from the back.
pub fn rindex_of_byte(v: &Vec<u8>, b: u8) -> (r: Option<usize>)
    ensures
        match r {
            Some(u) => last_index_of(v@, b) == Some(u as int),
            None => last_index_of(v@, b) is None,
        },
{
    let mut i: usize = v.len();
    while i > 0
        invariant
            i <= v.len(),
            forall|j: int| i <= j < v.len() ==> v@[j] != b,
        decreases i,
    {
        i = i - 1;
        if v[i] == b {
            proof {
                lemma_last_index_of_at(v@, b, i as int);
            }
            return Some(i);
        }
    }
    proof {
        lemma_last_index_of_props(v@, b);
        if last_index_of(v@, b) is Some {
            let k = last_index_of(v@, b)->Some_0;
            assert(v@[k] == b);
        }
    }
    None
}

/// The extension of a file name: what follows the last dot of the name's
/// last slash-separated component, or empty when that component has no
/// dot or begins with its only dot.
pub open spec fn extension_of(name: Seq<u8>) -> Seq<u8> {
    let comp = match last_index_of(name, 47u8) {
        Some(i) => name.skip(i + 1),
        None => name,
    };
    match last_index_of(comp, 46u8) {
        Some(d) => if d == 0 {
            Seq::<u8>::empty()
        } else {
            comp.skip(d + 1)
        },
        None => Seq::<u8>::empty(),
    }
}

/// Computes the extension of a file name, as `extension_of` describes.
pub fn extension(name: &Vec<u8>) -> (r: Vec<u8>)
    ensures
        r@ == extension_of(name@),
{
    proof {
        lemma_last_index_of_props(name@, 47u8);
    }
    let start: usize = match rindex_of_byte(name, 47) {
        Some(i) => i + 1,
        None => 0,
    };
    let comp = crate::scan::subvec(name, start, name.len());
    proof {
        if start > 0 {
            assert(comp@ =~= name@.skip(start as int));
        } else {
            assert(comp@ =~= name@);
        }
    }
    match rindex_of_byte(&comp, 46) {
        Some(d) => {
            proof {
                lemma_last_index_of_props(comp@, 46u8);
            }
            if d == 0 {
                Vec::new()
            } else {
                let r = crate::scan::subvec(&comp, d + 1, comp.len());
                proof {
                    assert(r@ =~= comp@.skip(d + 1));
                }
                r
            }
        },
        None => Vec::new(),
    }
}

/// The fixed denylist: `html`, `htm` and `php`, exactly and case-sensitively.
pub open spec fn is_blocked_extension(ext: Seq<u8>) -> bool {
    ||| ext == seq![104u8, 116u8, 109u8, 108u8]
    ||| ext == seq![104u8, 116u8, 109u8]
    ||| ext == seq![112u8, 104u8, 112u8]
}

/// Whether `ext` is on the denylist, as `is_blocked_extension` describes.
pub fn blocked_extension(ext: &Vec<u8>) -> (r: bool)
    ensures
        r == is_blocked_extension(ext@),
{
    proof {
        reveal_strlit("html");
        reveal_strlit("htm");
        reveal_strlit("php");
    }
    let html = ascii_vec("html");
    let htm = ascii_vec("htm");
    let php = ascii_vec("php");
    proof {
        assert(html@ =~= seq![104u8, 116u8, 109u8, 108u8]);
        assert(htm@ =~= seq![104u8, 116u8, 109u8]);
        assert(php@ =~= seq![112u8, 104u8, 112u8]);
    }
    eq_bytes(ext, &html) || eq_bytes(ext, &htm) || eq_bytes(ext, &php)
}

/// The bytes of an ASCII string slice, as a vector.
pub fn ascii_vec(s: &str) -> (r: Vec<u8>)
    requires
        s.is_ascii(),
    ensures
        r@ == Seq::new(s@.len(), |i: int| s@[i] as u8),
{
    proof {
        broadcast use vstd::string::is_ascii_spec_bytes;
    }
    let r = s.as_bytes_vec();
    proof {
        assert(r@ =~= Seq::new(s@.len(), |i: int| s@[i] as u8));
    }
    r
}

} // verus!

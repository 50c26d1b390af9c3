//! Searching in byte sequences: first occurrence of a byte or of a
//! subsequence, with executable counterparts proved against the spec.

use vstd::prelude::*;

verus! {

/// Index of the first occurrence of byte `b` in `s`, if any.
pub open spec fn find_byte(s: Seq<u8>, b: u8) -> Option<int>
    decreases s.len(),
{
    if s.len() == 0 {
        None
    } else if s[0] == b {
        Some(0int)
    } else {
        match find_byte(s.drop_first(), b) {
            Some(i) => Some(i + 1),
            None => None,
        }
    }
}

/// `find_byte` returns exactly the first position holding `b`.
pub proof fn lemma_find_byte_props(s: Seq<u8>, b: u8)
    ensures
        match find_byte(s, b) {
            Some(i) => 0 <= i < s.len() && s[i] == b && (forall|j: int| 0 <= j < i ==> s[j] != b),
            None => forall|j: int| 0 <= j < s.len() ==> s[j] != b,
        },
    decreases s.len(),
{
    if s.len() > 0 && s[0] != b {
        lemma_find_byte_props(s.drop_first(), b);
        assert forall|j: int| 1 <= j < s.len() implies s[j] == s.drop_first()[j - 1] by {}
    }
}

/// If `i` is a position of `b` with none before it, `find_byte` finds `i`.
pub proof fn lemma_find_byte_at(s: Seq<u8>, b: u8, i: int)
    requires
        0 <= i < s.len(),
        s[i] == b,
        forall|j: int| 0 <= j < i ==> s[j] != b,
    ensures
        find_byte(s, b) == Some(i),
    decreases i,
{
    if i > 0 {
        assert(s[0] != b);
        assert forall|j: int| 0 <= j < i - 1 implies s.drop_first()[j] != b by {
            assert(s.drop_first()[j] == s[j + 1]);
        }
        assert(s.drop_first()[i - 1] == s[i]);
        lemma_find_byte_at(s.drop_first(), b, i - 1);
    }
}

/// If no position holds `b`, `find_byte` finds nothing.
pub proof fn lemma_find_byte_none(s: Seq<u8>, b: u8)
    requires
        forall|j: int| 0 <= j < s.len() ==> s[j] != b,
    ensures
        find_byte(s, b) is None,
{
    lemma_find_byte_props(s, b);
    if find_byte(s, b) is Some {
        let i = find_byte(s, b)->Some_0;
        assert(s[i] == b);
    }
}

/// `needle` occurs in `hay` starting at position `i`.
pub open spec fn matches_at(hay: Seq<u8>, needle: Seq<u8>, i: int) -> bool {
    0 <= i && i + needle.len() <= hay.len() && hay.subrange(i, i + needle.len()) == needle
}

/// Index of the first occurrence of `needle` in `hay`, if any.
pub open spec fn find_sub(hay: Seq<u8>, needle: Seq<u8>) -> Option<int>
    decreases hay.len(),
{
    if needle.len() > hay.len() {
        None
    } else if matches_at(hay, needle, 0) {
        Some(0int)
    } else if hay.len() == 0 {
        None
    } else {
        match find_sub(hay.drop_first(), needle) {
            Some(i) => Some(i + 1),
            None => None,
        }
    }
}

/// A match in the tail of `hay` is a match one position later in `hay`.
pub proof fn lemma_matches_at_shift(hay: Seq<u8>, needle: Seq<u8>, i: int)
    requires
        hay.len() > 0,
        0 <= i,
    ensures
        matches_at(hay.drop_first(), needle, i) <==> matches_at(hay, needle, i + 1),
{
    if i + needle.len() <= hay.len() - 1 {
        assert(hay.drop_first().subrange(i, i + needle.len()) =~= hay.subrange(
            i + 1,
            i + 1 + needle.len(),
        ));
    }
}

/// `find_sub` returns exactly the first position where `needle` occurs.
pub proof fn lemma_find_sub_props(hay: Seq<u8>, needle: Seq<u8>)
    ensures
        match find_sub(hay, needle) {
            Some(i) => matches_at(hay, needle, i) && (forall|j: int|
                0 <= j < i ==> !matches_at(hay, needle, j)),
            None => forall|j: int| !matches_at(hay, needle, j),
        },
    decreases hay.len(),
{
    if needle.len() > hay.len() {
        assert forall|j: int| !matches_at(hay, needle, j) by {}
    } else if matches_at(hay, needle, 0) {
    } else if hay.len() == 0 {
        assert forall|j: int| !matches_at(hay, needle, j) by {}
    } else {
        lemma_find_sub_props(hay.drop_first(), needle);
        assert forall|j: int| 0 <= j implies (matches_at(hay.drop_first(), needle, j) <==>
            matches_at(hay, needle, j + 1)) by {
            lemma_matches_at_shift(hay, needle, j);
        }
        match find_sub(hay.drop_first(), needle) {
            Some(i) => {
                assert(matches_at(hay, needle, i + 1));
                assert forall|j: int| 0 <= j < i + 1 implies !matches_at(hay, needle, j) by {
                    if j > 0 {
                        assert(!matches_at(hay.drop_first(), needle, j - 1));
                    }
                }
            },
            None => {
                assert forall|j: int| !matches_at(hay, needle, j) by {
                    if j >= 1 {
                        assert(!matches_at(hay.drop_first(), needle, j - 1));
                    }
                }
            },
        }
    }
}

/// If `needle` occurs first at `i`, `find_sub` finds `i`.
pub proof fn lemma_find_sub_at(hay: Seq<u8>, needle: Seq<u8>, i: int)
    requires
        matches_at(hay, needle, i),
        forall|j: int| 0 <= j < i ==> !matches_at(hay, needle, j),
    ensures
        find_sub(hay, needle) == Some(i),
{
    lemma_find_sub_props(hay, needle);
    match find_sub(hay, needle) {
        Some(k) => {
            if k < i {
                assert(!matches_at(hay, needle, k));
            }
            if i < k {
                assert(!matches_at(hay, needle, i));
            }
        },
        None => {
            assert(!matches_at(hay, needle, i));
        },
    }
}

/// The bytes of `v` from `from` (inclusive) to `to` (exclusive), as a new vector.
pub fn subvec(v: &Vec<u8>, from: usize, to: usize) -> (r: Vec<u8>)
    requires
        from <= to <= v.len(),
    ensures
        r@ == v@.subrange(from as int, to as int),
{
    let mut r: Vec<u8> = Vec::new();
    let mut i: usize = from;
    while i < to
        invariant
            from <= i <= to <= v.len(),
            r@ == v@.subrange(from as int, i as int),
        decreases to - i,
    {
        r.push(v[i]);
        i = i + 1;
        proof {
            assert(v@.subrange(from as int, i as int) =~= v@.subrange(
                from as int,
                i - 1,
            ).push(v@[i - 1]));
        }
    }
    r
}

/// First index holding `b` in `v`, searching from the front.
pub fn index_of_byte(v: &Vec<u8>, b: u8) -> (r: Option<usize>)
    ensures
        match r {
            Some(u) => find_byte(v@, b) == Some(u as int),
            None => find_byte(v@, b) is None,
        },
{
    let mut i: usize = 0;
    while i < v.len()
        invariant
            i <= v.len(),
            forall|j: int| 0 <= j < i ==> v@[j] != b,
        decreases v.len() - i,
    {
        if v[i] == b {
            proof {
                lemma_find_byte_at(v@, b, i as int);
            }
            return Some(i);
        }
        i = i + 1;
    }
    proof {
        lemma_find_byte_none(v@, b);
    }
    None
}

/// Whether `needle` occurs in `hay` at position `at`.
fn check_match(hay: &Vec<u8>, needle: &Vec<u8>, at: usize) -> (r: bool)
    requires
        at + needle.len() <= hay.len(),
    ensures
        r == matches_at(hay@, needle@, at as int),
{
    let mut j: usize = 0;
    while j < needle.len()
        invariant
            j <= needle.len(),
            at + needle.len() <= hay.len(),
            forall|k: int| 0 <= k < j ==> hay@[at + k] == needle@[k],
        decreases needle.len() - j,
    {
        if hay[at + j] != needle[j] {
            proof {
                if matches_at(hay@, needle@, at as int) {
                    assert(hay@.subrange(at as int, at + needle@.len())[j as int] == hay@[at + j]);
                }
            }
            return false;
        }
        j = j + 1;
    }
    proof {
        assert(hay@.subrange(at as int, at + needle@.len()) =~= needle@);
    }
    true
}

/// First index at which `needle` occurs in `hay`, searching from the front.
pub fn find_subseq(hay: &Vec<u8>, needle: &Vec<u8>) -> (r: Option<usize>)
    ensures
        match r {
            Some(u) => find_sub(hay@, needle@) == Some(u as int),
            None => find_sub(hay@, needle@) is None,
        },
{
    if needle.len() > hay.len() {
        proof {
            lemma_find_sub_props(hay@, needle@);
        }
        return None;
    }
    if needle.len() == 0 {
        proof {
            assert(hay@.subrange(0, 0) =~= needle@);
            lemma_find_sub_at(hay@, needle@, 0);
        }
        return Some(0);
    }
    let lim: usize = hay.len() - needle.len();
    let mut i: usize = 0;
    while i <= lim
        invariant
            1 <= needle.len() <= hay.len(),
            lim == hay.len() - needle.len(),
            i <= lim + 1,
            forall|j: int| 0 <= j < i ==> !matches_at(hay@, needle@, j),
        decreases hay.len() - needle.len() - i + 1,
    {
        if check_match(hay, needle, i) {
            proof {
                lemma_find_sub_at(hay@, needle@, i as int);
            }
            return Some(i);
        }
        i = i + 1;
    }
    proof {
        assert forall|j: int| !matches_at(hay@, needle@, j) by {
            if 0 <= j < i {
            } else if j >= i {
                assert(j + needle@.len() > hay@.len());
            }
        }
        lemma_find_sub_props(hay@, needle@);
        if find_sub(hay@, needle@) is Some {
            let k = find_sub(hay@, needle@)->Some_0;
            assert(!matches_at(hay@, needle@, k));
        }
    }
    None
}

/// Whether two byte vectors hold the same bytes.
pub fn eq_bytes(a: &Vec<u8>, b: &Vec<u8>) -> (r: bool)
    ensures
        r == (a@ == b@),
{
    if a.len() != b.len() {
        return false;
    }
    let mut i: usize = 0;
    while i < a.len()
        invariant
            a.len() == b.len(),
            i <= a.len(),
            forall|k: int| 0 <= k < i ==> a@[k] == b@[k],
        decreases a.len() - i,
    {
        if a[i] != b[i] {
            return false;
        }
        i = i + 1;
    }
    proof {
        assert(a@ =~= b@);
    }
    true
}

} // verus!

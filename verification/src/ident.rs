//! Identifier generation: an 8-byte token sampled without replacement
//! from a fixed 32-character alphabet, the letters `a` up to but not
//! including `z` followed by the digits `2` up to but not including `9`.

use vstd::prelude::*;

verus! {

/// The identifier alphabet: `a`..`y` then `2`..`8`.
pub open spec fn id_alphabet() -> Seq<u8> {
    Seq::new(32, |i: int| if i < 25 {
        (97 + i) as u8
    } else {
        (25 + i) as u8
    })
}

/// A generated identifier: 8 distinct bytes of the alphabet.
pub open spec fn valid_id(id: Seq<u8>) -> bool {
    &&& id.len() == 8
    &&& forall|i: int| 0 <= i < 8 ==> id_alphabet().contains(#[trigger] id[i])
    &&& forall|i: int, j: int| 0 <= i < j < 8 ==> id[i] != id[j]
}

/// The alphabet holds neither `z` nor `9`.
pub proof fn lemma_alphabet_excludes_z_and_9(c: u8)
    requires
        id_alphabet().contains(c),
    ensures
        c != 122u8 && c != 57u8,
{
    let i = choose|i: int| 0 <= i < id_alphabet().len() && id_alphabet()[i] == c;
    assert(id_alphabet()[i] == c);
}

/// No byte of a generated identifier is `z` or `9`.
pub proof fn lemma_id_never_z_or_9(id: Seq<u8>)
    requires
        valid_id(id),
    ensures
        forall|i: int| 0 <= i < id.len() ==> id[i] != 122u8 && id[i] != 57u8,
{
    assert forall|i: int| 0 <= i < id.len() implies id[i] != 122u8 && id[i] != 57u8 by {
        lemma_alphabet_excludes_z_and_9(id[i]);
    }
}

/// Relies on rand's `Rng::gen_range` on a fresh thread-local generator:
/// a draw from the half-open range below `n` is below `n`; the range is
/// nonempty, so the call does not panic.  Nothing is assumed about which
/// value comes back.
#[verifier::external_body]
fn rand_below(n: usize) -> (r: usize)
    requires
        n > 0,
    ensures
        r < n,
{
    rand::Rng::gen_range(&mut rand::thread_rng(), 0..n)
}

/// The alphabet as a vector.
fn alphabet_vec() -> (r: Vec<u8>)
    ensures
        r@ == id_alphabet(),
{
    let mut r: Vec<u8> = Vec::new();
    let mut b: u8 = 97;
    while b < 122
        invariant
            97 <= b <= 122,
            r@.len() == b - 97,
            forall|j: int| 0 <= j < r@.len() ==> r@[j] == 97 + j,
        decreases 122 - b,
    {
        r.push(b);
        b = b + 1;
    }
    let mut d: u8 = 50;
    while d < 57
        invariant
            50 <= d <= 57,
            r@.len() == 25 + (d - 50),
            forall|j: int| 0 <= j < 25 ==> r@[j] == 97 + j,
            forall|j: int| 25 <= j < r@.len() ==> r@[j] == 25 + j,
        decreases 57 - d,
    {
        r.push(d);
        d = d + 1;
    }
    proof {
        assert(r@ =~= id_alphabet());
    }
    r
}

/// Generates one identifier: 8 bytes sampled without replacement from
/// the alphabet.  Which bytes come back depends on the generator; that
/// they are 8, distinct, and drawn from the alphabet does not.
pub fn gen_id() -> (r: Vec<u8>)
    ensures
        valid_id(r@),
{
    let mut pool = alphabet_vec();
    proof {
        assert forall|i: int, j: int| 0 <= i < j < pool@.len() implies pool@[i] != pool@[j] by {}
        assert forall|i: int| 0 <= i < pool@.len() implies id_alphabet().contains(
            #[trigger] pool@[i],
        ) by {}
    }
    let mut out: Vec<u8> = Vec::new();
    while out.len() < 8
        invariant
            out@.len() <= 8,
            pool@.len() == 32 - out@.len(),
            forall|i: int| 0 <= i < pool@.len() ==> id_alphabet().contains(#[trigger] pool@[i]),
            forall|i: int| 0 <= i < out@.len() ==> id_alphabet().contains(#[trigger] out@[i]),
            forall|i: int, j: int| 0 <= i < j < pool@.len() ==> pool@[i] != pool@[j],
            forall|i: int, j: int| 0 <= i < j < out@.len() ==> out@[i] != out@[j],
            forall|i: int, j: int|
                0 <= i < out@.len() && 0 <= j < pool@.len() ==> out@[i] != pool@[j],
        decreases 8 - out.len(),
    {
        let ghost old_pool = pool@;
        let k = rand_below(pool.len());
        let c = pool.remove(k);
        out.push(c);
        proof {
            assert forall|j: int| 0 <= j < pool@.len() implies pool@[j] == old_pool[
                if j < k {
                    j
                } else {
                    j + 1
                }
            ] by {}
        }
    }
    out
}

} // verus!

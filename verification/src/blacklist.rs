//! The blacklist filter: a static set of client addresses loaded once
//! from a newline-delimited file, denied all access thereafter.
//!
//! The surrounding server reads the blacklist file (an unreadable or
//! missing file degrades to empty contents) and hands the bytes to
//! [`BlacklistMiddleware::new`].

use vstd::prelude::*;

use crate::scan::{eq_bytes, find_byte, lemma_find_byte_at, lemma_find_byte_none};

verus! {

/// The newline-terminated lines of `s`: segments separated by a newline
/// byte, without a final empty segment after a trailing newline.
pub open spec fn lines_of(s: Seq<u8>) -> Seq<Seq<u8>>
    decreases s.len(),
{
    if s.len() == 0 {
        Seq::empty()
    } else {
        match find_byte(s, 10u8) {
            None => seq![s],
            Some(i) => if 0 <= i < s.len() {
                seq![s.take(i)] + lines_of(s.skip(i + 1))
            } else {
                seq![s]
            },
        }
    }
}

/// The blacklist filter: denies every request whose remote address is
/// one of the loaded lines.
pub struct BlacklistMiddleware {
    blacklist: Vec<Vec<u8>>,
}

impl View for BlacklistMiddleware {
    type V = Seq<Seq<u8>>;

    closed spec fn view(&self) -> Seq<Seq<u8>> {
        self.blacklist@.map_values(|v: Vec<u8>| v@)
    }
}

impl BlacklistMiddleware {
    /// Loads the blacklist from the bytes of the blacklist file: one
    /// address per line.
    pub fn new(contents: &Vec<u8>) -> (r: Self)
        ensures
            r@ == lines_of(contents@),
    {
        let mut blacklist: Vec<Vec<u8>> = Vec::new();
        let mut start: usize = 0;
        let mut i: usize = 0;
        let mut cur: Vec<u8> = Vec::new();
        proof {
            assert(contents@.skip(0) =~= contents@);
            assert(cur@ =~= contents@.subrange(0, 0));
            assert(blacklist@.map_values(|v: Vec<u8>| v@) + lines_of(contents@) =~= lines_of(
                contents@,
            ));
        }
        while i < contents.len()
            invariant
                start <= i <= contents.len(),
                cur@ == contents@.subrange(start as int, i as int),
                forall|j: int| start <= j < i ==> contents@[j] != 10u8,
                lines_of(contents@) == blacklist@.map_values(|v: Vec<u8>| v@) + lines_of(
                    contents@.skip(start as int),
                ),
            decreases contents.len() - i,
        {
            let b = contents[i];
            if b == 10 {
                proof {
                    let rest = contents@.skip(start as int);
                    assert forall|j: int| 0 <= j < i - start implies rest[j] != 10u8 by {
                        assert(rest[j] == contents@[start + j]);
                    }
                    assert(rest[i - start] == 10u8);
                    lemma_find_byte_at(rest, 10u8, i - start);
                    assert(rest.take(i - start) =~= contents@.subrange(start as int, i as int));
                    assert(rest.skip(i - start + 1) =~= contents@.skip(i + 1));
                    assert(lines_of(rest) == seq![cur@] + lines_of(contents@.skip(i + 1)));
                    assert((blacklist@.map_values(|v: Vec<u8>| v@) + lines_of(rest)).subrange(
                        0,
                        blacklist@.len() as int,
                    ) =~= blacklist@.map_values(|v: Vec<u8>| v@));
                }
                let ghost old_bl = blacklist@;
                blacklist.push(cur);
                proof {
                    assert(blacklist@.map_values(|v: Vec<u8>| v@) =~= old_bl.map_values(
                        |v: Vec<u8>| v@,
                    ).push(cur@));
                    assert(old_bl.map_values(|v: Vec<u8>| v@).push(cur@) + lines_of(
                        contents@.skip(i + 1),
                    ) =~= old_bl.map_values(|v: Vec<u8>| v@) + (seq![cur@] + lines_of(
                        contents@.skip(i + 1),
                    )));
                }
                cur = Vec::new();
                start = i + 1;
                proof {
                    assert(cur@ =~= contents@.subrange(start as int, start as int));
                }
            } else {
                cur.push(b);
                proof {
                    assert(cur@ =~= contents@.subrange(start as int, i + 1));
                }
            }
            i = i + 1;
        }
        proof {
            let rest = contents@.skip(start as int);
            if start == contents@.len() {
                assert(rest =~= Seq::<u8>::empty());
                assert(lines_of(rest) =~= Seq::<Seq<u8>>::empty());
                assert(blacklist@.map_values(|v: Vec<u8>| v@) + lines_of(rest)
                    =~= blacklist@.map_values(|v: Vec<u8>| v@));
            } else {
                assert forall|j: int| 0 <= j < rest.len() implies rest[j] != 10u8 by {
                    assert(rest[j] == contents@[start + j]);
                }
                lemma_find_byte_none(rest, 10u8);
                assert(rest =~= cur@);
            }
        }
        if cur.len() > 0 {
            proof {
                let rest = contents@.skip(start as int);
                let ghost m = blacklist@.map_values(|v: Vec<u8>| v@);
                assert(lines_of(rest) == seq![cur@]);
                assert((m + seq![cur@]).subrange(0, m.len() as int) =~= m);
            }
            let ghost old_bl = blacklist@;
            blacklist.push(cur);
            proof {
                assert(blacklist@.map_values(|v: Vec<u8>| v@) =~= old_bl.map_values(
                    |v: Vec<u8>| v@,
                ) + seq![cur@]);
            }
        }
        let r = BlacklistMiddleware { blacklist };
        proof {
            assert(r@ =~= lines_of(contents@));
        }
        r
    }

    /// Whether the filter denies a request from this remote address.
    pub open spec fn denies(&self, remote: Option<Seq<u8>>) -> bool {
        match remote {
            Some(a) => self@.contains(a),
            None => false,
        }
    }

    /// Whether `addr` is one of the loaded addresses.
    pub fn is_blacklisted(&self, addr: &Vec<u8>) -> (r: bool)
        ensures
            r == self@.contains(addr@),
    {
        let mut i: usize = 0;
        while i < self.blacklist.len()
            invariant
                i <= self.blacklist.len(),
                self@ == self.blacklist@.map_values(|v: Vec<u8>| v@),
                self@.len() == self.blacklist@.len(),
                forall|j: int| 0 <= j < i ==> self@[j] != addr@,
            decreases self.blacklist.len() - i,
        {
            if eq_bytes(&self.blacklist[i], addr) {
                proof {
                    assert(self@[i as int] == addr@);
                }
                return true;
            }
            i = i + 1;
        }
        proof {
            if self@.contains(addr@) {
                let j = choose|j: int| 0 <= j < self@.len() && self@[j] == addr@;
                assert(self@[j] != addr@);
            }
        }
        false
    }
}

} // verus!

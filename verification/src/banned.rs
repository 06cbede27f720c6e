//! The banned-number filter.
//!
//! A fixed set of number strings loaded once at boot from a line-delimited
//! blob and never mutated afterwards. A submission equal to a banned entry,
//! or longer than the length cap, is rejected before it has any effect.

use vstd::prelude::*;

use crate::bytes::bytes_eq;

verus! {

/// Longest accepted submission, in bytes.
pub const MAX_NUMBER_LEN: usize = 50;

/// `l` without one trailing carriage return, as a line ending in `\r\n`
/// names the same number as one ending in `\n`.
pub open spec fn strip_cr(l: Seq<u8>) -> Seq<u8> {
    if l.len() > 0 && l.last() == 13u8 {
        l.drop_last()
    } else {
        l
    }
}

/// The lines of `s` after `cur`: `cur` is the part of the current line read
/// so far. Lines are separated by `\n`; a final line without `\n` counts,
/// an empty final line does not.
pub open spec fn lines_from(s: Seq<u8>, cur: Seq<u8>) -> Seq<Seq<u8>>
    decreases s.len(),
{
    if s.len() == 0 {
        if cur.len() == 0 {
            Seq::empty()
        } else {
            seq![strip_cr(cur)]
        }
    } else if s[0] == 10u8 {
        seq![strip_cr(cur)] + lines_from(s.drop_first(), Seq::empty())
    } else {
        lines_from(s.drop_first(), cur.push(s[0]))
    }
}

/// The lines of a blob, in order.
pub open spec fn lines_of(s: Seq<u8>) -> Seq<Seq<u8>> {
    lines_from(s, Seq::empty())
}

/// A submission is acceptable when it fits the length cap and is not banned.
pub open spec fn number_ok(n: Seq<u8>, banned: Seq<Seq<u8>>) -> bool {
    n.len() <= MAX_NUMBER_LEN && !banned.contains(n)
}

/// The banned set: the numbers the provider handler refuses.
pub struct BannedSet {
    entries: Vec<Vec<u8>>,
}

impl BannedSet {
    /// The banned numbers, in blob order.
    pub closed spec fn views(&self) -> Seq<Seq<u8>> {
        self.entries@.map_values(|v: Vec<u8>| v@)
    }

    /// Whether `n` is banned.
    pub open spec fn is_banned(&self, n: Seq<u8>) -> bool {
        self.views().contains(n)
    }

    /// An empty set, which bans nothing.
    pub fn new() -> (r: BannedSet)
        ensures
            r.views() == Seq::<Seq<u8>>::empty(),
    {
        let r = BannedSet { entries: Vec::new() };
        proof {
            assert(r.views() =~= Seq::<Seq<u8>>::empty());
        }
        r
    }

    /// Load the set from a line-delimited blob: one banned number per line.
    pub fn from_blob(blob: &Vec<u8>) -> (r: BannedSet)
        ensures
            r.views() == lines_of(blob@),
    {
        let mut entries: Vec<Vec<u8>> = Vec::new();
        let mut cur: Vec<u8> = Vec::new();
        let mut i: usize = 0;
        proof {
            assert(blob@.skip(0) =~= blob@);
            assert(entries@.map_values(|v: Vec<u8>| v@) =~= Seq::<Seq<u8>>::empty());
            assert(Seq::<Seq<u8>>::empty() + lines_of(blob@) =~= lines_of(blob@));
        }
        while i < blob.len()
            invariant
                i <= blob.len(),
                lines_of(blob@) == entries@.map_values(|v: Vec<u8>| v@) + lines_from(
                    blob@.skip(i as int),
                    cur@,
                ),
            decreases blob.len() - i,
        {
            let ghost f = |v: Vec<u8>| v@;
            let ghost pre = entries@;
            let ghost curv = cur@;
            let b = blob[i];
            proof {
                assert(blob@.skip(i as int)[0] == b);
                assert(blob@.skip(i as int).drop_first() =~= blob@.skip(i + 1));
            }
            if b == 10 {
                let line = strip_cr_exec(cur);
                entries.push(line);
                cur = Vec::new();
                proof {
                    assert(entries@.map_values(f) =~= pre.map_values(f).push(strip_cr(curv)));
                    assert(lines_from(blob@.skip(i as int), curv) == seq![strip_cr(curv)]
                        + lines_from(blob@.skip(i + 1), Seq::<u8>::empty()));
                    assert(pre.map_values(f) + (seq![strip_cr(curv)] + lines_from(
                        blob@.skip(i + 1),
                        Seq::<u8>::empty(),
                    )) =~= entries@.map_values(f) + lines_from(
                        blob@.skip(i + 1),
                        Seq::<u8>::empty(),
                    ));
                }
            } else {
                cur.push(b);
                proof {
                    assert(lines_from(blob@.skip(i as int), curv) == lines_from(
                        blob@.skip(i + 1),
                        curv.push(b),
                    ));
                }
            }
            i += 1;
        }
        proof {
            assert(blob@.skip(blob@.len() as int) =~= Seq::<u8>::empty());
        }
        if cur.len() > 0 {
            let ghost f = |v: Vec<u8>| v@;
            let ghost pre = entries@;
            let ghost curv = cur@;
            let line = strip_cr_exec(cur);
            entries.push(line);
            proof {
                assert(lines_from(Seq::<u8>::empty(), curv) == seq![strip_cr(curv)]);
                assert(entries@.map_values(f) =~= pre.map_values(f).push(strip_cr(curv)));
                assert(pre.map_values(f) + seq![strip_cr(curv)] =~= entries@.map_values(f));
                assert(entries@.map_values(f) =~= lines_of(blob@));
            }
        } else {
            proof {
                let f = |v: Vec<u8>| v@;
                assert(lines_from(Seq::<u8>::empty(), cur@) == Seq::<Seq<u8>>::empty());
                assert(entries@.map_values(f) + Seq::<Seq<u8>>::empty() =~= entries@.map_values(f));
            }
        }
        let r = BannedSet { entries };
        proof {
            assert(r.views() =~= lines_of(blob@));
        }
        r
    }

    /// Whether `n` is banned.
    pub fn contains(&self, n: &Vec<u8>) -> (r: bool)
        ensures
            r <==> self.is_banned(n@),
    {
        let mut i: usize = 0;
        while i < self.entries.len()
            invariant
                i <= self.entries.len(),
                self.views() == self.entries@.map_values(|v: Vec<u8>| v@),
                self.views().len() == self.entries@.len(),
                forall|k: int| 0 <= k < i ==> self.views()[k] != n@,
            decreases self.entries.len() - i,
        {
            if bytes_eq(&self.entries[i], n) {
                assert(self.views()[i as int] == n@);
                return true;
            }
            assert(self.views()[i as int] == self.entries@[i as int]@);
            i += 1;
        }
        false
    }
}

/// `cur` without one trailing carriage return.
fn strip_cr_exec(cur: Vec<u8>) -> (r: Vec<u8>)
    ensures
        r@ == strip_cr(cur@),
{
    let mut out = cur;
    if out.len() > 0 && out[out.len() - 1] == 13 {
        out.pop();
    }
    out
}

/// A submission is acceptable when it fits the length cap and is not banned.
pub fn validate_number(n: &Vec<u8>, banned: &BannedSet) -> (r: bool)
    ensures
        r <==> number_ok(n@, banned.views()),
{
    if n.len() > MAX_NUMBER_LEN {
        return false;
    }
    !banned.contains(n)
}

} // verus!

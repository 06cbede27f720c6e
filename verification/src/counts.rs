//! The submission tally.
//!
//! Every successful match increments a counter under the submitted number;
//! the statistics page shows the most-submitted numbers. In deployment the
//! tally lives in the broker's sorted set; this is the same mapping as
//! values, with the increment and the top-of-the-table selection verified.

use vstd::prelude::*;

use crate::bytes::append_vec;
use crate::bytes::bytes_eq;

verus! {

/// `s` has an entry under the key `m`.
pub open spec fn has_key(s: Seq<(Vec<u8>, u64)>, m: Seq<u8>) -> bool {
    exists|i: int| 0 <= i < s.len() && #[trigger] s[i].0@ == m
}

/// The tally: number string to how often it was matched.
pub struct Counts {
    entries: Vec<(Vec<u8>, u64)>,
}

impl Counts {
    /// The tallied numbers, in first-seen order.
    pub closed spec fn keys(&self) -> Seq<Seq<u8>> {
        self.entries@.map_values(|e: (Vec<u8>, u64)| e.0@)
    }

    /// The raw entries.
    pub closed spec fn entries_view(&self) -> Seq<(Vec<u8>, u64)> {
        self.entries@
    }

    /// Each number is tallied under one entry only.
    pub open spec fn wf(&self) -> bool {
        self.keys().no_duplicates()
    }

    /// How often `n` has been matched.
    pub open spec fn count_of(&self, n: Seq<u8>) -> u64 {
        if self.keys().contains(n) {
            self.entries_view()[self.keys().index_of(n)].1
        } else {
            0
        }
    }

    /// An empty tally.
    pub fn new() -> (r: Counts)
        ensures
            r.keys() == Seq::<Seq<u8>>::empty(),
            r.wf(),
            forall|n: Seq<u8>| r.count_of(n) == 0,
    {
        let r = Counts { entries: Vec::new() };
        proof {
            assert(r.keys() =~= Seq::<Seq<u8>>::empty());
            assert forall|n: Seq<u8>| r.count_of(n) == 0 by {
                assert(!r.keys().contains(n));
            }
        }
        r
    }

    /// Number of distinct tallied numbers.
    pub fn len(&self) -> (r: usize)
        ensures
            r == self.keys().len(),
    {
        self.entries.len()
    }

    /// Count one more match of `n`. The counter saturates at the machine's
    /// limit; every other number's count is untouched.
    pub fn incr(&mut self, n: &Vec<u8>)
        requires
            old(self).wf(),
        ensures
            final(self).wf(),
            final(self).count_of(n@) == (if old(self).count_of(n@) < u64::MAX {
                (old(self).count_of(n@) + 1) as u64
            } else {
                u64::MAX
            }),
            forall|m: Seq<u8>| m != n@ ==> final(self).count_of(m) == old(self).count_of(m),
            final(self).keys() == (if old(self).keys().contains(n@) {
                old(self).keys()
            } else {
                old(self).keys().push(n@)
            }),
    {
        let ghost ks = old(self).keys();
        let mut i: usize = 0;
        while i < self.entries.len()
            invariant
                i <= self.entries.len(),
                self.entries@ == old(self).entries@,
                ks == self.keys(),
                ks == self.entries@.map_values(|e: (Vec<u8>, u64)| e.0@),
                ks.len() == self.entries@.len(),
                ks.no_duplicates(),
                forall|k: int| 0 <= k < i ==> ks[k] != n@,
            decreases self.entries.len() - i,
        {
            if bytes_eq(&self.entries[i].0, n) {
                assert(ks[i as int] == n@);
                let e = self.entries.remove(i);
                let c: u64 = if e.1 < u64::MAX {
                    e.1 + 1
                } else {
                    u64::MAX
                };
                self.entries.insert(i, (e.0, c));
                proof {
                    assert(self.keys() =~= ks);
                    assert(ks.contains(n@)) by {
                        assert(ks[i as int] == n@);
                    }
                    let j = ks.index_of(n@);
                    assert(0 <= j < ks.len() && ks[j] == n@);
                    if j != i {
                        assert(ks[j] == ks[i as int]);
                        assert(false);
                    }
                    assert(self.entries@[i as int].1 == c);
                    assert(old(self).entries@[i as int].1 == e.1);
                    assert forall|m: Seq<u8>| m != n@ implies final(self).count_of(m) == old(
                        self,
                    ).count_of(m) by {
                        if ks.contains(m) {
                            let k = ks.index_of(m);
                            assert(0 <= k < ks.len() && ks[k] == m);
                            assert(k != i);
                            assert(self.entries@[k].1 == old(self).entries@[k].1);
                        }
                    }
                }
                return ;
            }
            assert(ks[i as int] == self.entries@[i as int].0@);
            i += 1;
        }
        assert(!ks.contains(n@));
        let mut key: Vec<u8> = Vec::new();
        append_vec(&mut key, n);
        proof {
            assert(key@ =~= n@);
        }
        self.entries.push((key, 1));
        proof {
            assert(self.keys() =~= ks.push(n@));
            assert forall|a: int, b: int|
                0 <= a < self.keys().len() && 0 <= b < self.keys().len() && a
                    != b implies self.keys()[a] != self.keys()[b] by {
                if a < ks.len() && b < ks.len() {
                    assert(self.keys()[a] == ks[a] && self.keys()[b] == ks[b]);
                } else if a == ks.len() {
                    assert(self.keys()[b] == ks[b]);
                    assert(ks.contains(ks[b]));
                } else {
                    assert(self.keys()[a] == ks[a]);
                    assert(ks.contains(ks[a]));
                }
            }
            assert(self.keys().no_duplicates());
            assert(self.keys().contains(n@)) by {
                assert(self.keys()[ks.len() as int] == n@);
            }
            let j = self.keys().index_of(n@);
            assert(0 <= j < self.keys().len() && self.keys()[j] == n@);
            if j != ks.len() {
                assert(ks[j] == n@);
                assert(ks.contains(n@));
                assert(false);
            }
            assert(self.entries@[ks.len() as int].1 == 1);
            assert(old(self).count_of(n@) == 0);
            assert forall|m: Seq<u8>| m != n@ implies final(self).count_of(m) == old(
                self,
            ).count_of(m) by {
                if ks.contains(m) {
                    let k = ks.index_of(m);
                    assert(0 <= k < ks.len() && ks[k] == m);
                    assert(self.keys()[k] == m);
                    assert(self.keys().contains(m));
                    let k2 = self.keys().index_of(m);
                    assert(self.keys()[k2] == m);
                    if k2 != k {
                        if k2 < ks.len() {
                            assert(ks[k2] == m);
                            assert(false);
                        } else {
                            assert(self.keys()[k2] == n@);
                            assert(false);
                        }
                    }
                    assert(self.entries@[k].1 == old(self).entries@[k].1);
                } else {
                    if self.keys().contains(m) {
                        let k = self.keys().index_of(m);
                        assert(self.keys()[k] == m);
                        if k < ks.len() {
                            assert(ks[k] == m);
                            assert(false);
                        } else {
                            assert(self.keys()[k] == n@);
                            assert(false);
                        }
                    }
                }
            }
        }
    }

    /// The `n` most-matched numbers with their counts, highest first.
    /// Every returned pair is a true entry of the tally, no number appears
    /// twice, and no tallied number left out beats the lowest returned one.
    #[verifier::rlimit(100)]
    pub fn top_n(&self, n: usize) -> (r: Vec<(Vec<u8>, u64)>)
        requires
            self.wf(),
        ensures
            r@.len() == (if n <= self.keys().len() {
                n as int
            } else {
                self.keys().len() as int
            }),
            forall|i: int, j: int| 0 <= i < j < r@.len() ==> r@[i].1 >= r@[j].1,
            forall|i: int|
                0 <= i < r@.len() ==> self.keys().contains(#[trigger] r@[i].0@) && self.count_of(
                    r@[i].0@,
                ) == r@[i].1,
            forall|i: int, j: int| 0 <= i < j < r@.len() ==> r@[i].0@ != r@[j].0@,
            forall|m: Seq<u8>|
                #[trigger] self.keys().contains(m) && !has_key(r@, m) && r@.len() > 0 ==> self
                    .count_of(m) <= r@[r@.len() - 1].1,
    {
        let mut pool: Vec<(Vec<u8>, u64)> = Vec::new();
        let mut i: usize = 0;
        while i < self.entries.len()
            invariant
                i <= self.entries.len(),
                self.keys() == self.entries@.map_values(|e: (Vec<u8>, u64)| e.0@),
                self.keys().len() == self.entries@.len(),
                self.entries_view() == self.entries@,
                pool@.len() == i,
                forall|k: int|
                    0 <= k < i ==> #[trigger] pool@[k].0@ == self.entries@[k].0@ && pool@[k].1
                        == self.entries@[k].1,
            decreases self.entries.len() - i,
        {
            let mut key: Vec<u8> = Vec::new();
            append_vec(&mut key, &self.entries[i].0);
            proof {
                assert(key@ =~= self.entries@[i as int].0@);
            }
            pool.push((key, self.entries[i].1));
            i += 1;
        }
        proof {
            assert forall|k: int|
                0 <= k < pool@.len() implies self.keys().contains(#[trigger] pool@[k].0@) && self
                .count_of(pool@[k].0@) == pool@[k].1 by {
                assert(self.keys()[k] == pool@[k].0@);
                let j = self.keys().index_of(pool@[k].0@);
                assert(0 <= j < self.keys().len() && self.keys()[j] == pool@[k].0@);
                if j != k {
                    assert(self.keys()[j] == self.keys()[k]);
                    assert(false);
                }
            }
            assert forall|a: int, b: int|
                0 <= a < pool@.len() && 0 <= b < pool@.len() && a != b implies pool@[a].0@
                != pool@[b].0@ by {
                assert(self.keys()[a] == pool@[a].0@ && self.keys()[b] == pool@[b].0@);
            }
            assert forall|m: Seq<u8>| #[trigger] self.keys().contains(m) implies has_key(
                pool@,
                m,
            ) by {
                let j = self.keys().index_of(m);
                assert(self.keys()[j] == m);
                assert(pool@[j].0@ == m);
            }
        }
        let mut out: Vec<(Vec<u8>, u64)> = Vec::new();
        while out.len() < n && pool.len() > 0
            invariant
                out@.len() + pool@.len() == self.keys().len(),
                out@.len() <= n,
                forall|k: int|
                    0 <= k < pool@.len() ==> self.keys().contains(#[trigger] pool@[k].0@) && self
                        .count_of(pool@[k].0@) == pool@[k].1,
                forall|k: int|
                    0 <= k < out@.len() ==> self.keys().contains(#[trigger] out@[k].0@) && self
                        .count_of(out@[k].0@) == out@[k].1,
                forall|a: int, b: int|
                    0 <= a < pool@.len() && 0 <= b < pool@.len() && a != b ==> pool@[a].0@
                        != pool@[b].0@,
                forall|a: int, b: int| 0 <= a < b < out@.len() ==> out@[a].0@ != out@[b].0@,
                forall|a: int, b: int|
                    0 <= a < out@.len() && 0 <= b < pool@.len() ==> out@[a].0@ != pool@[b].0@,
                forall|m: Seq<u8>|
                    #[trigger] self.keys().contains(m) ==> has_key(out@, m) || has_key(pool@, m),
                forall|a: int, b: int| 0 <= a < b < out@.len() ==> out@[a].1 >= out@[b].1,
                out@.len() > 0 ==> forall|k: int|
                    0 <= k < pool@.len() ==> #[trigger] pool@[k].1 <= out@[out@.len() - 1].1,
            decreases pool@.len(),
        {
            let mut mi: usize = 0;
            let mut k: usize = 1;
            while k < pool.len()
                invariant
                    mi < k <= pool@.len(),
                    pool@.len() > 0,
                    forall|t: int| 0 <= t < k ==> #[trigger] pool@[t].1 <= pool@[mi as int].1,
                decreases pool@.len() - k,
            {
                if pool[k].1 > pool[mi].1 {
                    mi = k;
                }
                k += 1;
            }
            let ghost pre_pool = pool@;
            let ghost pre_out = out@;
            let e = pool.remove(mi);
            out.push(e);
            proof {
                assert(out@ == pre_out.push(pre_pool[mi as int]));
                assert forall|t: int|
                    0 <= t < pool@.len() implies (#[trigger] pool@[t] == (if t < mi {
                    pre_pool[t]
                } else {
                    pre_pool[t + 1]
                })) by {}
                assert forall|m: Seq<u8>|
                    #[trigger] self.keys().contains(m) implies has_key(out@, m) || has_key(
                    pool@,
                    m,
                ) by {
                    if has_key(pre_out, m) {
                        let j = choose|j: int| 0 <= j < pre_out.len() && pre_out[j].0@ == m;
                        assert(out@[j].0@ == m);
                    } else if has_key(pre_pool, m) {
                        let j = choose|j: int| 0 <= j < pre_pool.len() && pre_pool[j].0@ == m;
                        if j == mi {
                            assert(out@[out@.len() - 1].0@ == m);
                        } else if j < mi {
                            assert(pool@[j].0@ == m);
                        } else {
                            assert(pool@[j - 1].0@ == m);
                        }
                    }
                }
            }
        }
        proof {
            if out@.len() < n {
                assert(pool@.len() == 0);
            }
            assert forall|m: Seq<u8>|
                #[trigger] self.keys().contains(m) && !has_key(out@, m) && out@.len()
                    > 0 implies self.count_of(m) <= out@[out@.len() - 1].1 by {
                assert(has_key(pool@, m));
                let j = choose|j: int| 0 <= j < pool@.len() && pool@[j].0@ == m;
                assert(pool@[j].1 <= out@[out@.len() - 1].1);
                assert(self.count_of(m) == pool@[j].1);
            }
        }
        out
    }
}

} // verus!

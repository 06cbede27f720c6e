//! The pending queue: the ordered set of waiting requesters.
//!
//! A FIFO of request identifiers. A requester's GUID is enqueued when its
//! handler starts waiting, popped by a provider's submission (oldest waiter
//! first), and removed by the waiter's own cleanup on timeout, disconnect or
//! completion. Identifiers are unique per process lifetime, so the queue
//! never holds a GUID twice.

use vstd::prelude::*;

use crate::guid::Guid;

verus! {

/// `s` without its occurrence of `g`; `s` itself when `g` is not there. On
/// duplicate-free sequences this is the removal the queue and the callback
/// table perform.
pub open spec fn seq_remove_guid(s: Seq<Guid>, g: Guid) -> Seq<Guid> {
    if s.contains(g) {
        s.remove(s.index_of(g))
    } else {
        s
    }
}

/// What removing one identifier does: on a duplicate-free sequence the
/// identifier is gone, nothing else changes, and no duplicate appears.
pub proof fn lemma_seq_remove_guid(s: Seq<Guid>, g: Guid)
    requires
        s.no_duplicates(),
    ensures
        !seq_remove_guid(s, g).contains(g),
        seq_remove_guid(s, g).no_duplicates(),
        forall|x: Guid| x != g ==> (#[trigger] seq_remove_guid(s, g).contains(x) <==> s.contains(x)),
        s.contains(g) ==> seq_remove_guid(s, g).len() == s.len() - 1,
        !s.contains(g) ==> seq_remove_guid(s, g) == s,
{
    if s.contains(g) {
        let i = s.index_of(g);
        assert(0 <= i < s.len() && s[i] == g);
        let t = s.remove(i);
        assert forall|a: int, b: int|
            0 <= a < t.len() && 0 <= b < t.len() && a != b implies t[a] != t[b] by {
            let a0: int = if a < i {
                a
            } else {
                a + 1
            };
            let b0: int = if b < i {
                b
            } else {
                b + 1
            };
            assert(t[a] == s[a0]);
            assert(t[b] == s[b0]);
        }
        assert(t.no_duplicates());
        assert forall|k: int| 0 <= k < t.len() implies t[k] != g by {
            if k < i {
                assert(t[k] == s[k]);
            } else {
                assert(t[k] == s[k + 1]);
            }
        }
        assert(!t.contains(g));
        assert forall|x: Guid| x != g implies (#[trigger] t.contains(x) <==> s.contains(x)) by {
            if s.contains(x) {
                let j = choose|j: int| 0 <= j < s.len() && s[j] == x;
                if j < i {
                    assert(t[j] == x);
                } else {
                    assert(j != i);
                    assert(t[j - 1] == x);
                }
                assert(t.contains(x));
            }
            if t.contains(x) {
                let k = choose|k: int| 0 <= k < t.len() && t[k] == x;
                if k < i {
                    assert(s[k] == x);
                } else {
                    assert(s[k + 1] == x);
                }
                assert(s.contains(x));
            }
        }
    }
}

/// What popping the oldest waiter leaves: everyone later, in order, and the
/// popped identifier no longer waiting.
pub proof fn lemma_fifo_pop(q: Seq<Guid>)
    requires
        q.no_duplicates(),
        q.len() > 0,
    ensures
        q.drop_first() == q.subrange(1, q.len() as int),
        !q.drop_first().contains(q[0]),
        q.drop_first().no_duplicates(),
        forall|i: int| 1 <= i < q.len() ==> q.drop_first().contains(#[trigger] q[i]),
{
    let t = q.drop_first();
    assert(t =~= q.subrange(1, q.len() as int));
    assert forall|k: int| 0 <= k < t.len() implies t[k] != q[0] by {
        assert(t[k] == q[k + 1]);
    }
    assert(!t.contains(q[0]));
    assert forall|a: int, b: int|
        0 <= a < t.len() && 0 <= b < t.len() && a != b implies t[a] != t[b] by {
        assert(t[a] == q[a + 1]);
        assert(t[b] == q[b + 1]);
    }
    assert(t.no_duplicates());
    assert forall|i: int| 1 <= i < q.len() implies t.contains(#[trigger] q[i]) by {
        assert(t[i - 1] == q[i]);
    }
}

/// FIFO of waiting requesters. In the view, index 0 is the oldest waiter,
/// the one a submission is matched to first.
pub struct PendingQueue {
    items: Vec<Guid>,
}

impl View for PendingQueue {
    type V = Seq<Guid>;

    closed spec fn view(&self) -> Seq<Guid> {
        self.items@
    }
}

impl PendingQueue {
    /// The queue never holds the same identifier twice.
    pub open spec fn wf(&self) -> bool {
        self@.no_duplicates()
    }

    /// An empty queue.
    pub fn new() -> (r: PendingQueue)
        ensures
            r@ == Seq::<Guid>::empty(),
            r.wf(),
    {
        PendingQueue { items: Vec::new() }
    }

    /// Number of waiting requesters.
    pub fn len(&self) -> (r: usize)
        ensures
            r == self@.len(),
    {
        self.items.len()
    }

    /// Whether nobody is waiting.
    pub fn is_empty(&self) -> (r: bool)
        ensures
            r <==> self@.len() == 0,
    {
        self.items.len() == 0
    }

    /// Whether `g` is waiting.
    pub fn contains(&self, g: Guid) -> (r: bool)
        ensures
            r <==> self@.contains(g),
    {
        let mut i: usize = 0;
        while i < self.items.len()
            invariant
                i <= self.items.len(),
                self@ == self.items@,
                forall|k: int| 0 <= k < i ==> self.items@[k] != g,
            decreases self.items.len() - i,
        {
            if self.items[i] == g {
                return true;
            }
            i += 1;
        }
        false
    }

    /// Enter `g` as the newest waiter.
    pub fn enqueue(&mut self, g: Guid)
        requires
            old(self).wf(),
            !old(self)@.contains(g),
        ensures
            final(self)@ == old(self)@.push(g),
            final(self).wf(),
    {
        self.items.push(g);
        proof {
            assert(self.items@.drop_last() == old(self).items@);
        }
    }

    /// Take the oldest waiter out, if anyone is waiting.
    pub fn pop_oldest(&mut self) -> (r: Option<Guid>)
        requires
            old(self).wf(),
        ensures
            final(self).wf(),
            r is Some <==> old(self)@.len() > 0,
            old(self)@.len() > 0 ==> r == Some(old(self)@[0]) && final(self)@ == old(
                self,
            )@.drop_first(),
            old(self)@.len() == 0 ==> final(self)@ == old(self)@,
    {
        if self.items.len() == 0 {
            return None;
        }
        let g = self.items.remove(0);
        proof {
            assert(self.items@ =~= old(self)@.drop_first());
        }
        Some(g)
    }

    /// Remove `g` if it is waiting; leave the queue as it was otherwise.
    pub fn remove_guid(&mut self, g: Guid)
        requires
            old(self).wf(),
        ensures
            final(self).wf(),
            final(self)@ == seq_remove_guid(old(self)@, g),
            !final(self)@.contains(g),
    {
        let mut i: usize = 0;
        while i < self.items.len()
            invariant
                i <= self.items.len(),
                self.items@ == old(self).items@,
                old(self)@.no_duplicates(),
                forall|k: int| 0 <= k < i ==> self.items@[k] != g,
            decreases self.items.len() - i,
        {
            if self.items[i] == g {
                self.items.remove(i);
                proof {
                    let s = old(self)@;
                    let t = s.remove(i as int);
                    assert forall|a: int, b: int|
                        0 <= a < t.len() && 0 <= b < t.len() && a != b implies t[a] != t[b] by {
                        let a0: int = if a < i {
                            a
                        } else {
                            a + 1
                        };
                        let b0: int = if b < i {
                            b
                        } else {
                            b + 1
                        };
                        assert(t[a] == s[a0]);
                        assert(t[b] == s[b0]);
                    }
                    assert(t.no_duplicates());
                    assert forall|k: int| 0 <= k < t.len() implies t[k] != g by {
                        if k < i {
                            assert(t[k] == s[k]);
                        } else {
                            assert(t[k] == s[k + 1]);
                            assert(s[i as int] == g);
                        }
                    }
                    assert(!t.contains(g));
                    assert(s.contains(g)) by {
                        assert(s[i as int] == g);
                    }
                    let j = s.index_of(g);
                    assert(0 <= j < s.len() && s[j] == g);
                    if j < i {
                        assert(s[j] != g);
                    }
                    if j > i {
                        assert(s[i as int] == s[j]);
                        assert(false);
                    }
                    assert(j == i as int);
                }
                return ;
            }
            i += 1;
        }
    }

    /// The waiting identifiers, oldest first.
    pub fn snapshot(&self) -> (r: Vec<Guid>)
        ensures
            r@ == self@,
    {
        let mut out: Vec<Guid> = Vec::new();
        let mut i: usize = 0;
        while i < self.items.len()
            invariant
                i <= self.items.len(),
                self@ == self.items@,
                out@ == self.items@.subrange(0, i as int),
            decreases self.items.len() - i,
        {
            out.push(self.items[i]);
            proof {
                assert(out@ =~= self.items@.subrange(0, i + 1));
            }
            i += 1;
        }
        proof {
            assert(out@ =~= self@);
        }
        out
    }
}

} // verus!

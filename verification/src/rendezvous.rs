//! The rendezvous matcher, assembled.
//!
//! One process's picture of the whole exchange: the pending queue, the
//! callback table and the banned set, moved by the three transitions —
//! a requester registering, a provider submitting, and a waiter's cleanup.
//! In deployment the queue lives in the broker and the publishes travel as
//! wire payloads; the transitions here are the same decisions over the same
//! values, and the laws at the bottom are stated against them.

use vstd::prelude::*;

use crate::api::install_slot;
use crate::api::submit_outcome;
use crate::api::MatchEffects;
use crate::api::SubmitResponse;
use crate::banned::number_ok;
use crate::banned::validate_number;
use crate::banned::BannedSet;
use crate::guid::Guid;
use crate::message::encode_state_update;
use crate::message::is_callback_payload;
use crate::message::is_state_update_payload;
use crate::message::lemma_callback_payload_unique;
use crate::message::StateUpdate;
use crate::queue::lemma_fifo_pop;
use crate::queue::lemma_seq_remove_guid;
use crate::queue::seq_remove_guid;
use crate::queue::PendingQueue;
use crate::table::CallbackTable;

verus! {

/// One process's rendezvous state.
pub struct Rendezvous {
    /// The waiting requesters, oldest first.
    pub queue: PendingQueue,
    /// The delivery slot of each waiter this process owns.
    pub table: CallbackTable,
    /// The numbers the provider handler refuses.
    pub banned: BannedSet,
}

impl Rendezvous {
    /// Both structures are duplicate-free, and every queued waiter still
    /// owns a slot. (A slot may outlive its queue entry for the moment
    /// between a provider's pop and the fan-in delivery.)
    pub open spec fn wf(&self) -> bool {
        &&& self.queue.wf()
        &&& self.table.wf()
        &&& forall|i: int|
            0 <= i < self.queue@.len() ==> self.table.contains_guid(#[trigger] self.queue@[i])
    }

    /// A fresh matcher with the given banned set and nobody waiting.
    pub fn new(banned: BannedSet) -> (r: Rendezvous)
        ensures
            r.queue@ == Seq::<Guid>::empty(),
            r.table.guids() == Seq::<Guid>::empty(),
            r.banned.views() == banned.views(),
            r.wf(),
    {
        Rendezvous { queue: PendingQueue::new(), table: CallbackTable::new(), banned }
    }

    /// A requester enters: its slot is installed, then its GUID enqueued,
    /// in that order, and the `Added` announcement is handed back for
    /// publishing. Returns the receiving half the handler will await.
    pub fn register(&mut self, g: Guid) -> (r: (
        tokio::sync::oneshot::Receiver<Vec<u8>>,
        Vec<u8>,
    ))
        requires
            old(self).wf(),
            !old(self).table.contains_guid(g),
        ensures
            final(self).wf(),
            final(self).queue@ == old(self).queue@.push(g),
            final(self).table.guids() == old(self).table.guids().push(g),
            final(self).banned == old(self).banned,
            is_state_update_payload(r.1@, StateUpdate::Added(g)),
    {
        proof {
            if old(self).queue@.contains(g) {
                let i = choose|i: int|
                    0 <= i < old(self).queue@.len() && old(self).queue@[i] == g;
                assert(old(self).table.contains_guid(old(self).queue@[i]));
                assert(false);
            }
        }
        let (rx, added) = install_slot(&mut self.table, g);
        self.queue.enqueue(g);
        proof {
            let tg = self.table.guids();
            assert forall|i: int|
                0 <= i < self.queue@.len() implies self.table.contains_guid(
                #[trigger] self.queue@[i],
            ) by {
                let x = self.queue@[i];
                if i < old(self).queue@.len() {
                    assert(old(self).table.contains_guid(x));
                    let j = choose|j: int|
                        0 <= j < old(self).table.guids().len() && old(self).table.guids()[j] == x;
                    assert(tg[j] == x);
                } else {
                    assert(x == g);
                    assert(tg.last() == g);
                }
            }
        }
        (rx, added)
    }

    /// A provider submits `number`. A banned or oversized number is
    /// rejected with no pop and no effects; with nobody waiting, nothing
    /// changes; otherwise the oldest waiter is popped and the match's three
    /// publishes are handed back.
    pub fn submit(&mut self, number: &Vec<u8>) -> (r: (
        SubmitResponse,
        Option<(Guid, MatchEffects)>,
    ))
        requires
            old(self).wf(),
        ensures
            final(self).wf(),
            final(self).table.guids() == old(self).table.guids(),
            final(self).banned == old(self).banned,
            !number_ok(number@, old(self).banned.views()) ==> {
                &&& r.0 == SubmitResponse::BadInput
                &&& r.1 is None
                &&& final(self).queue@ == old(self).queue@
            },
            number_ok(number@, old(self).banned.views()) && old(self).queue@.len() == 0 ==> {
                &&& r.0 == SubmitResponse::NoWaiters
                &&& r.1 is None
                &&& final(self).queue@ == old(self).queue@
            },
            number_ok(number@, old(self).banned.views()) && old(self).queue@.len() > 0 ==> {
                &&& r.0 == SubmitResponse::Matched
                &&& r.1 is Some
                &&& r.1->Some_0.0 == old(self).queue@[0]
                &&& final(self).queue@ == old(self).queue@.drop_first()
                &&& is_callback_payload(
                    r.1->Some_0.1.callback_payload@,
                    old(self).queue@[0],
                    number@,
                )
                &&& is_state_update_payload(
                    r.1->Some_0.1.removed_payload@,
                    StateUpdate::Removed(old(self).queue@[0]),
                )
                &&& r.1->Some_0.1.tally_key@ == number@
            },
    {
        if !validate_number(number, &self.banned) {
            let (resp, _) = submit_outcome(number, &self.banned, None);
            return (resp, None);
        }
        let popped = self.queue.pop_oldest();
        proof {
            if old(self).queue@.len() > 0 {
                lemma_fifo_pop(old(self).queue@);
            }
        }
        match popped {
            None => (SubmitResponse::NoWaiters, None),
            Some(g) => {
                let (resp, effects) = submit_outcome(number, &self.banned, Some(g));
                match effects {
                    Some(e) => (resp, Some((g, e))),
                    None => (resp, None),
                }
            },
        }
    }

    /// A waiter's cleanup, shared by the matched, timed-out and cancelled
    /// ends of a wait. Guarded by the caller's once-flag: when it has
    /// already run, nothing happens again. Otherwise the GUID leaves the
    /// queue and the table, and the `Removed` announcement is handed back;
    /// publishing it twice (here and on the provider's side) is deliberate,
    /// and observers absorb the duplicate.
    pub fn cleanup(&mut self, g: Guid, already_done: bool) -> (r: Option<Vec<u8>>)
        requires
            old(self).wf(),
        ensures
            final(self).wf(),
            final(self).banned == old(self).banned,
            already_done ==> final(self).queue@ == old(self).queue@ && final(self).table.guids()
                == old(self).table.guids() && r is None,
            !already_done ==> {
                &&& final(self).queue@ == seq_remove_guid(old(self).queue@, g)
                &&& final(self).table.guids() == seq_remove_guid(old(self).table.guids(), g)
                &&& !final(self).queue@.contains(g)
                &&& !final(self).table.contains_guid(g)
                &&& r is Some
                &&& is_state_update_payload(r->Some_0@, StateUpdate::Removed(g))
            },
    {
        if already_done {
            return None;
        }
        self.queue.remove_guid(g);
        let slot = self.table.take(g);
        proof {
            lemma_seq_remove_guid(old(self).queue@, g);
            lemma_seq_remove_guid(old(self).table.guids(), g);
            assert forall|i: int|
                0 <= i < self.queue@.len() implies self.table.contains_guid(
                #[trigger] self.queue@[i],
            ) by {
                let x = self.queue@[i];
                assert(self.queue@.contains(x));
                assert(x != g);
                assert(old(self).queue@.contains(x)) by {
                    lemma_seq_remove_guid(old(self).queue@, g);
                }
                let j = choose|j: int|
                    0 <= j < old(self).queue@.len() && old(self).queue@[j] == x;
                assert(old(self).table.contains_guid(x));
            }
        }
        let removed = encode_state_update(&StateUpdate::Removed(g));
        Some(removed)
    }
}

/// Rendezvous liveness: when the oldest waiter `q[0]` still owns its slot,
/// the payload a submission publishes for it is read back — by any reader —
/// as exactly that waiter and that number, and the delivery resolves
/// exactly that waiter's slot, which the table then no longer holds. With
/// `respond_after_wait`, the delivered number comes back as `200` with the
/// number and a newline.
pub proof fn lemma_rendezvous_liveness(q: Seq<Guid>, t: Seq<Guid>, p: Seq<u8>, n: Seq<u8>)
    requires
        q.len() > 0,
        t.no_duplicates(),
        t.contains(q[0]),
        is_callback_payload(p, q[0], n),
    ensures
        forall|g2: Guid, n2: Seq<u8>| is_callback_payload(p, g2, n2) ==> g2 == q[0] && n2 == n,
        seq_remove_guid(t, q[0]).len() == t.len() - 1,
        !seq_remove_guid(t, q[0]).contains(q[0]),
{
    assert forall|g2: Guid, n2: Seq<u8>| is_callback_payload(p, g2, n2) implies g2 == q[0] && n2
        == n by {
        lemma_callback_payload_unique(p, g2, n2, q[0], n);
    }
    lemma_seq_remove_guid(t, q[0]);
}

/// At most one match per waiter: once a waiter's slot has been resolved —
/// by a delivery or by its own cleanup — the table no longer holds it, so
/// any further delivery under the same identifier finds no listener; and
/// once popped, a duplicate-free queue no longer offers it to any
/// submission.
pub proof fn lemma_at_most_one_match(q: Seq<Guid>, t: Seq<Guid>, g: Guid)
    requires
        q.no_duplicates(),
        t.no_duplicates(),
    ensures
        !seq_remove_guid(t, g).contains(g),
        q.len() > 0 && q[0] == g ==> !q.drop_first().contains(g),
{
    lemma_seq_remove_guid(t, g);
    if q.len() > 0 && q[0] == g {
        lemma_fifo_pop(q);
    }
}

/// The FIFO tie-break: one submission takes exactly the oldest waiter, and
/// everyone who entered later is still waiting, in their order.
pub proof fn lemma_fifo_tie_break(q: Seq<Guid>)
    requires
        q.no_duplicates(),
        q.len() > 0,
    ensures
        q.drop_first() == q.subrange(1, q.len() as int),
        !q.drop_first().contains(q[0]),
        forall|i: int| 1 <= i < q.len() ==> q.drop_first().contains(#[trigger] q[i]),
{
    lemma_fifo_pop(q);
}

/// Cleanup settles a waiter completely and is idempotent: after one
/// cleanup the identifier is out of both structures, and a second removal
/// — from the other end of a race, or a duplicated event — changes
/// nothing.
pub proof fn lemma_cleanup_idempotent(s: Seq<Guid>, g: Guid)
    requires
        s.no_duplicates(),
    ensures
        !seq_remove_guid(s, g).contains(g),
        seq_remove_guid(seq_remove_guid(s, g), g) == seq_remove_guid(s, g),
{
    lemma_seq_remove_guid(s, g);
    lemma_seq_remove_guid(seq_remove_guid(s, g), g);
}

} // verus!

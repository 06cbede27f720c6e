//! The observer's view of the waiting list.
//!
//! Each connected browser keeps a list of waiting requesters and splices in
//! the queue changes it receives. Events can arrive duplicated, and an
//! `Added` can straggle in after its `Removed`; the view operations are
//! idempotent so neither corrupts the list, and a reconnecting observer
//! rebuilds its view from a queue snapshot.

use vstd::prelude::*;

use crate::guid::Guid;
use crate::message::is_state_update_payload;
use crate::message::lemma_state_update_payload_unique;
use crate::message::StateUpdate;
use crate::queue::lemma_seq_remove_guid;
use crate::queue::seq_remove_guid;
use crate::queue::PendingQueue;

verus! {

/// One queue change applied to a view: an `Added` inserts the identifier
/// unless it is already shown, a `Removed` deletes it if it is.
pub open spec fn observer_apply(v: Seq<Guid>, u: StateUpdate) -> Seq<Guid> {
    match u {
        StateUpdate::Added(g) => if v.contains(g) {
            v
        } else {
            v.push(g)
        },
        StateUpdate::Removed(g) => seq_remove_guid(v, g),
    }
}

/// A whole stream of queue changes applied in order.
pub open spec fn observer_fold(v: Seq<Guid>, us: Seq<StateUpdate>) -> Seq<Guid>
    decreases us.len(),
{
    if us.len() == 0 {
        v
    } else {
        observer_fold(observer_apply(v, us[0]), us.drop_first())
    }
}

/// One browser's picture of the waiting list.
pub struct ObserverView {
    list: PendingQueue,
}

impl View for ObserverView {
    type V = Seq<Guid>;

    closed spec fn view(&self) -> Seq<Guid> {
        self.list@
    }
}

impl ObserverView {
    /// The view never shows an identifier twice.
    pub open spec fn wf(&self) -> bool {
        self@.no_duplicates()
    }

    /// The empty view a fresh connection starts from.
    pub fn new() -> (r: ObserverView)
        ensures
            r@ == Seq::<Guid>::empty(),
            r.wf(),
    {
        ObserverView { list: PendingQueue::new() }
    }

    /// Splice one queue change in.
    pub fn apply(&mut self, u: &StateUpdate)
        requires
            old(self).wf(),
        ensures
            final(self)@ == observer_apply(old(self)@, *u),
            final(self).wf(),
    {
        match u {
            StateUpdate::Added(g) => {
                if !self.list.contains(*g) {
                    self.list.enqueue(*g);
                    proof {
                        assert(self@ =~= old(self)@.push(*g));
                    }
                }
            },
            StateUpdate::Removed(g) => {
                self.list.remove_guid(*g);
                proof {
                    lemma_seq_remove_guid(old(self)@, *g);
                }
            },
        }
    }

    /// Replace the view with a queue snapshot, as a reconnecting observer
    /// does before it resumes splicing events.
    pub fn reconcile(&mut self, snapshot: &Vec<Guid>)
        requires
            snapshot@.no_duplicates(),
        ensures
            final(self)@ == snapshot@,
            final(self).wf(),
    {
        let mut list = PendingQueue::new();
        let mut i: usize = 0;
        while i < snapshot.len()
            invariant
                i <= snapshot.len(),
                snapshot@.no_duplicates(),
                list@ == snapshot@.subrange(0, i as int),
                list.wf(),
            decreases snapshot.len() - i,
        {
            proof {
                if list@.contains(snapshot@[i as int]) {
                    let j = choose|j: int| 0 <= j < list@.len() && list@[j] == snapshot@[i as int];
                    assert(snapshot@[j] == snapshot@[i as int]);
                    assert(false);
                }
            }
            list.enqueue(snapshot[i]);
            proof {
                assert(list@ =~= snapshot@.subrange(0, i + 1));
            }
            i += 1;
        }
        proof {
            assert(list@ =~= snapshot@);
        }
        self.list = list;
    }

    /// The identifiers shown, in order.
    pub fn items(&self) -> (r: Vec<Guid>)
        ensures
            r@ == self@,
    {
        self.list.snapshot()
    }
}

/// An `Added` is visible: after applying it the identifier is shown.
pub proof fn lemma_added_visible(v: Seq<Guid>, g: Guid)
    ensures
        observer_apply(v, StateUpdate::Added(g)).contains(g),
{
    if !v.contains(g) {
        assert(v.push(g)[v.len() as int] == g);
    }
}

/// Duplicate `Added` events do not change the view a second time.
pub proof fn lemma_added_idempotent(v: Seq<Guid>, g: Guid)
    ensures
        observer_apply(observer_apply(v, StateUpdate::Added(g)), StateUpdate::Added(g))
            == observer_apply(v, StateUpdate::Added(g)),
{
    lemma_added_visible(v, g);
}

/// Duplicate `Removed` events do not corrupt the view: applying the same
/// `Removed` twice is applying it once.
pub proof fn lemma_removed_idempotent(v: Seq<Guid>, g: Guid)
    requires
        v.no_duplicates(),
    ensures
        observer_apply(observer_apply(v, StateUpdate::Removed(g)), StateUpdate::Removed(g))
            == observer_apply(v, StateUpdate::Removed(g)),
{
    lemma_seq_remove_guid(v, g);
    lemma_seq_remove_guid(seq_remove_guid(v, g), g);
}

/// Applying a stream keeps the view duplicate-free.
pub proof fn lemma_fold_wf(v: Seq<Guid>, us: Seq<StateUpdate>)
    requires
        v.no_duplicates(),
    ensures
        observer_fold(v, us).no_duplicates(),
    decreases us.len(),
{
    if us.len() > 0 {
        let v1 = observer_apply(v, us[0]);
        assert(v1.no_duplicates()) by {
            match us[0] {
                StateUpdate::Added(g) => {
                    if !v.contains(g) {
                        assert(v.push(g).drop_last() == v);
                        assert forall|a: int, b: int|
                            0 <= a < v.push(g).len() && 0 <= b < v.push(g).len() && a
                                != b implies v.push(g)[a] != v.push(g)[b] by {
                            if a < v.len() && b < v.len() {
                            } else if a == v.len() {
                                assert(v.push(g)[b] == v[b]);
                                assert(!v.contains(g) ==> v[b] != g);
                            } else {
                                assert(v.push(g)[a] == v[a]);
                                assert(!v.contains(g) ==> v[a] != g);
                            }
                        }
                    }
                },
                StateUpdate::Removed(g) => {
                    lemma_seq_remove_guid(v, g);
                },
            }
        }
        lemma_fold_wf(v1, us.drop_first());
    }
}

/// Fan-out settles: however events arrived before it, a stream whose last
/// word on `g` is `Removed(g)` leaves `g` off the view.
pub proof fn lemma_fold_last_removed(v: Seq<Guid>, us: Seq<StateUpdate>, g: Guid)
    requires
        v.no_duplicates(),
        us.len() > 0,
        us.last() == StateUpdate::Removed(g),
    ensures
        !observer_fold(v, us).contains(g),
    decreases us.len(),
{
    if us.len() == 1 {
        lemma_seq_remove_guid(v, g);
        let v1 = observer_apply(v, us[0]);
        assert(us.drop_first().len() == 0);
        assert(observer_fold(v1, us.drop_first()) == v1);
        assert(observer_fold(v, us) == observer_fold(v1, us.drop_first()));
        assert(us[0] == StateUpdate::Removed(g));
    } else {
        let v1 = observer_apply(v, us[0]);
        assert(v1.no_duplicates()) by {
            lemma_fold_wf(v, seq![us[0]]);
            assert(observer_fold(v, seq![us[0]]) == observer_fold(
                observer_apply(v, us[0]),
                seq![us[0]].drop_first(),
            ));
            assert(seq![us[0]].drop_first().len() == 0);
        }
        assert(us.drop_first().last() == us.last());
        lemma_fold_last_removed(v1, us.drop_first(), g);
    }
}

/// Fan-out, end to end: the announcements a waiter's life publishes are
/// unambiguous — every observer reads the `Added` payload as `Added(g)`
/// and the `Removed` payload as `Removed(g)` — the `Added` makes `g`
/// visible, and a stream whose last word on the matter is the `Removed`
/// (however duplicated either event arrived) leaves `g` off the view.
pub proof fn lemma_fanout(
    v: Seq<Guid>,
    g: Guid,
    p_add: Seq<u8>,
    p_rem: Seq<u8>,
    us: Seq<StateUpdate>,
)
    requires
        v.no_duplicates(),
        is_state_update_payload(p_add, StateUpdate::Added(g)),
        is_state_update_payload(p_rem, StateUpdate::Removed(g)),
    ensures
        forall|u: StateUpdate|
            is_state_update_payload(p_add, u) ==> u == StateUpdate::Added(g),
        forall|u: StateUpdate|
            is_state_update_payload(p_rem, u) ==> u == StateUpdate::Removed(g),
        observer_apply(v, StateUpdate::Added(g)).contains(g),
        us.len() > 0 && us.last() == StateUpdate::Removed(g) ==> !observer_fold(v, us).contains(
            g,
        ),
{
    assert forall|u: StateUpdate|
        is_state_update_payload(p_add, u) implies u == StateUpdate::Added(g) by {
        lemma_state_update_payload_unique(p_add, u, StateUpdate::Added(g));
    }
    assert forall|u: StateUpdate|
        is_state_update_payload(p_rem, u) implies u == StateUpdate::Removed(g) by {
        lemma_state_update_payload_unique(p_rem, u, StateUpdate::Removed(g));
    }
    lemma_added_visible(v, g);
    if us.len() > 0 && us.last() == StateUpdate::Removed(g) {
        lemma_fold_last_removed(v, us, g);
    }
}

/// The states one observer connection passes through.
#[derive(Clone, Copy, PartialEq, Eq, Structural, Debug)]
pub enum ObserverPhase {
    /// The socket is being upgraded and the bus subscription taken.
    Connecting,
    /// Queue changes are being forwarded, with heart-beats in the gaps.
    Streaming,
    /// The connection is over; other observers are unaffected.
    Closed,
}

/// The events that move an observer between phases.
#[derive(Clone, Copy, PartialEq, Eq, Structural, Debug)]
pub enum ObserverEvent {
    /// Subscribed to the bus and the initial heart-beat went out.
    Subscribed,
    /// A fragment was forwarded to the browser.
    UpdateForwarded,
    /// The bus reported lag and the observer chose to drop the loss.
    LagDropped,
    /// Sending to the browser failed.
    SendFailed,
    /// The bus reported lag and the observer chose to disconnect.
    LagAborted,
    /// An idle heart-beat went unanswered.
    HeartbeatFailed,
    /// The browser closed the socket.
    ClientClosed,
}

/// The observer lifecycle: a connection starts streaming once subscribed,
/// survives forwarded updates and tolerated lag, and closes on send
/// failure, lag abort, heart-beat failure or client close.
pub open spec fn observer_step_spec(p: ObserverPhase, e: ObserverEvent) -> ObserverPhase {
    match (p, e) {
        (ObserverPhase::Connecting, ObserverEvent::Subscribed) => ObserverPhase::Streaming,
        (ObserverPhase::Streaming, ObserverEvent::UpdateForwarded) => ObserverPhase::Streaming,
        (ObserverPhase::Streaming, ObserverEvent::LagDropped) => ObserverPhase::Streaming,
        (ObserverPhase::Streaming, ObserverEvent::SendFailed) => ObserverPhase::Closed,
        (ObserverPhase::Streaming, ObserverEvent::LagAborted) => ObserverPhase::Closed,
        (ObserverPhase::Streaming, ObserverEvent::HeartbeatFailed) => ObserverPhase::Closed,
        (ObserverPhase::Streaming, ObserverEvent::ClientClosed) => ObserverPhase::Closed,
        (other, _) => other,
    }
}

/// Step the observer lifecycle.
pub fn observer_step(p: ObserverPhase, e: ObserverEvent) -> (r: ObserverPhase)
    ensures
        r == observer_step_spec(p, e),
{
    match (p, e) {
        (ObserverPhase::Connecting, ObserverEvent::Subscribed) => ObserverPhase::Streaming,
        (ObserverPhase::Streaming, ObserverEvent::UpdateForwarded) => ObserverPhase::Streaming,
        (ObserverPhase::Streaming, ObserverEvent::LagDropped) => ObserverPhase::Streaming,
        (ObserverPhase::Streaming, ObserverEvent::SendFailed) => ObserverPhase::Closed,
        (ObserverPhase::Streaming, ObserverEvent::LagAborted) => ObserverPhase::Closed,
        (ObserverPhase::Streaming, ObserverEvent::HeartbeatFailed) => ObserverPhase::Closed,
        (ObserverPhase::Streaming, ObserverEvent::ClientClosed) => ObserverPhase::Closed,
        (other, _) => other,
    }
}

} // verus!

//! The callback table: one delivery slot per waiting requester.
//!
//! A process-local mapping from a request identifier to the one-shot channel
//! on which that requester's handler blocks. The fan-in task takes a slot out
//! (at most once) and sends the submitted number into it; the handler's own
//! cleanup takes the slot out on the timeout and disconnect paths. Slots are
//! `tokio` one-shot senders; the table and every decision around it are
//! verified, while the channel itself is trusted.

use vstd::prelude::*;

use crate::guid::Guid;
use crate::queue::seq_remove_guid;

verus! {

/// Declares tokio's one-shot sender so slots can live in verified fields;
/// the value is opaque here.
#[verifier::external_type_specification]
#[verifier::external_body]
#[verifier::reject_recursive_types(T)]
pub struct ExOneshotSender<T>(tokio::sync::oneshot::Sender<T>);

/// Declares tokio's one-shot receiver, handed to the unverified waiter.
#[verifier::external_type_specification]
#[verifier::external_body]
#[verifier::reject_recursive_types(T)]
pub struct ExOneshotReceiver<T>(tokio::sync::oneshot::Receiver<T>);

/// Declares the receiver's error type, which its trait impls mention.
#[verifier::external_type_specification]
#[verifier::external_body]
pub struct ExOneshotRecvError(tokio::sync::oneshot::error::RecvError);

/// Relies on tokio::sync::oneshot::channel: the returned sender and receiver
/// are the two halves of one fresh single-use channel.
#[verifier::external_body]
pub fn oneshot_pair() -> (tokio::sync::oneshot::Sender<Vec<u8>>, tokio::sync::oneshot::Receiver<
    Vec<u8>,
>) {
    tokio::sync::oneshot::channel()
}

/// Relies on tokio::sync::oneshot::Sender::send: the value reaches the
/// receiving half if it still exists, and comes back unchanged otherwise.
#[verifier::external_body]
pub fn send_value(tx: tokio::sync::oneshot::Sender<Vec<u8>>, v: Vec<u8>) -> (r: Result<
    (),
    Vec<u8>,
>)
    ensures
        r is Err ==> r->Err_0@ == v@,
{
    tx.send(v)
}

/// One waiting requester: its identifier and the slot its handler awaits.
pub struct CallbackEntry {
    pub guid: Guid,
    pub sender: tokio::sync::oneshot::Sender<Vec<u8>>,
}

/// The callback table. Abstractly a set of identifiers, each owning one
/// delivery slot; an identifier is present exactly while its requester has
/// neither been delivered to nor cleaned up.
pub struct CallbackTable {
    entries: Vec<CallbackEntry>,
}

/// What a delivery attempt found.
#[derive(Clone, Copy, PartialEq, Eq, Structural, Debug)]
pub enum DeliverOutcome {
    /// The slot was present and the value went into it.
    Sent,
    /// The slot was present but its waiter had already gone away.
    WaiterGone,
    /// No slot under this identifier: owned elsewhere or already resolved.
    NoListener,
}

impl CallbackTable {
    /// The identifiers with a slot, in insertion order.
    pub closed spec fn guids(&self) -> Seq<Guid> {
        self.entries@.map_values(|e: CallbackEntry| e.guid)
    }

    /// Whether `g` has a slot.
    pub open spec fn contains_guid(&self, g: Guid) -> bool {
        self.guids().contains(g)
    }

    /// The table never holds two slots under one identifier.
    pub open spec fn wf(&self) -> bool {
        self.guids().no_duplicates()
    }

    /// An empty table.
    pub fn new() -> (r: CallbackTable)
        ensures
            r.guids() == Seq::<Guid>::empty(),
            r.wf(),
    {
        let r = CallbackTable { entries: Vec::new() };
        proof {
            assert(r.guids() =~= Seq::<Guid>::empty());
        }
        r
    }

    /// Number of slots.
    pub fn len(&self) -> (r: usize)
        ensures
            r == self.guids().len(),
    {
        self.entries.len()
    }

    /// Whether `g` has a slot.
    pub fn contains(&self, g: Guid) -> (r: bool)
        ensures
            r <==> self.contains_guid(g),
    {
        let mut i: usize = 0;
        while i < self.entries.len()
            invariant
                i <= self.entries.len(),
                self.guids() == self.entries@.map_values(|e: CallbackEntry| e.guid),
                self.guids().len() == self.entries@.len(),
                forall|k: int| 0 <= k < i ==> self.guids()[k] != g,
            decreases self.entries.len() - i,
        {
            if self.entries[i].guid == g {
                assert(self.guids()[i as int] == g);
                return true;
            }
            assert(self.guids()[i as int] == self.entries@[i as int].guid);
            i += 1;
        }
        false
    }

    /// Install the slot a fresh waiter will be delivered on.
    pub fn insert(&mut self, g: Guid, sender: tokio::sync::oneshot::Sender<Vec<u8>>)
        requires
            old(self).wf(),
            !old(self).contains_guid(g),
        ensures
            final(self).guids() == old(self).guids().push(g),
            final(self).wf(),
    {
        self.entries.push(CallbackEntry { guid: g, sender });
        proof {
            assert(self.guids() =~= old(self).guids().push(g));
        }
    }

    /// Take the slot under `g` out, if it is there: delivery and cleanup both
    /// resolve a slot exactly once.
    pub fn take(&mut self, g: Guid) -> (r: Option<
        tokio::sync::oneshot::Sender<Vec<u8>>,
    >)
        requires
            old(self).wf(),
        ensures
            final(self).wf(),
            r is Some <==> old(self).contains_guid(g),
            final(self).guids() == seq_remove_guid(old(self).guids(), g),
            !final(self).contains_guid(g),
    {
        let ghost s = old(self).guids();
        let mut i: usize = 0;
        while i < self.entries.len()
            invariant
                i <= self.entries.len(),
                self.entries@ == old(self).entries@,
                s == self.guids(),
                s == self.entries@.map_values(|e: CallbackEntry| e.guid),
                s.len() == self.entries@.len(),
                s.no_duplicates(),
                forall|k: int| 0 <= k < i ==> s[k] != g,
            decreases self.entries.len() - i,
        {
            if self.entries[i].guid == g {
                assert(s[i as int] == g);
                let entry = self.entries.remove(i);
                proof {
                    let t = s.remove(i as int);
                    assert(self.guids() =~= t);
                    assert forall|a: int, b: int|
                        0 <= a < t.len() && 0 <= b < t.len() && a != b implies t[a] != t[b] by {
                        let a0: int = if a < i {
                            a
                        } else {
                            a + 1
                        };
                        let b0: int = if b < i {
                            b
                        } else {
                            b + 1
                        };
                        assert(t[a] == s[a0]);
                        assert(t[b] == s[b0]);
                    }
                    assert(t.no_duplicates());
                    assert forall|k: int| 0 <= k < t.len() implies t[k] != g by {
                        if k < i {
                            assert(t[k] == s[k]);
                        } else {
                            assert(t[k] == s[k + 1]);
                        }
                    }
                    assert(!t.contains(g));
                    assert(s.contains(g)) by {
                        assert(s[i as int] == g);
                    }
                    let j = s.index_of(g);
                    assert(0 <= j < s.len() && s[j] == g);
                    if j < i {
                        assert(s[j] != g);
                    }
                    if j > i {
                        assert(s[i as int] == s[j]);
                        assert(false);
                    }
                    assert(j == i as int);
                }
                return Some(entry.sender);
            }
            assert(s[i as int] == self.entries@[i as int].guid);
            i += 1;
        }
        assert(!s.contains(g));
        None
    }
}

/// Route one submitted number to the requester waiting under `g`: take the
/// slot out and send the number into it. After the call `g` has no slot, so
/// a second delivery under the same identifier finds no listener.
pub fn deliver(table: &mut CallbackTable, g: Guid, number: Vec<u8>) -> (r: DeliverOutcome)
    requires
        old(table).wf(),
    ensures
        final(table).wf(),
        final(table).guids() == seq_remove_guid(old(table).guids(), g),
        !final(table).contains_guid(g),
        r is NoListener <==> !old(table).contains_guid(g),
{
    match table.take(g) {
        Some(tx) => match send_value(tx, number) {
            Ok(()) => DeliverOutcome::Sent,
            Err(_) => DeliverOutcome::WaiterGone,
        },
        None => DeliverOutcome::NoListener,
    }
}

} // verus!

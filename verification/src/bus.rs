//! The fan-in task's routing and the state-update broadcast bus.
//!
//! One long-lived task per process consumes broker messages. A `callbacks`
//! message is routed into the callback table and delivered to the waiting
//! requester; a `state_updates` message is rendered as a list-item fragment
//! and broadcast to every connected observer over a bounded in-process bus.
//! The bus is a `tokio` broadcast channel: producers never block, and a
//! lagging observer loses the oldest undelivered fragments rather than
//! holding anyone up. Bad payloads and unknown channels are reported to the
//! caller, never fatal.

use vstd::prelude::*;

use crate::config::DEFAULT_BROADCAST_CAPACITY;
use crate::fragments::is_waitlist_fragment;
use crate::fragments::render_waitlist;
use crate::guid::Guid;
use crate::fragments::render_list_item;
use crate::message::decode_callback;
use crate::message::decode_state_update;
use crate::message::is_callback_payload;
use crate::message::is_state_update_payload;
use crate::message::lemma_callback_payload_unique;
use crate::message::StateUpdate;
use crate::queue::seq_remove_guid;
use crate::table::deliver;
use crate::table::CallbackTable;
use crate::table::DeliverOutcome;

verus! {

/// Declares tokio's broadcast sender: the bus handle producers share.
#[verifier::external_type_specification]
#[verifier::external_body]
#[verifier::reject_recursive_types(T)]
pub struct ExBroadcastSender<T>(tokio::sync::broadcast::Sender<T>);

/// Declares tokio's broadcast receiver, handed to unverified observers.
#[verifier::external_type_specification]
#[verifier::external_body]
#[verifier::reject_recursive_types(T)]
pub struct ExBroadcastReceiver<T>(tokio::sync::broadcast::Receiver<T>);

/// Relies on tokio::sync::broadcast::Sender::new, which panics on a zero
/// capacity and on one above half of `usize::MAX`; inside those bounds it
/// returns a fresh bus with no receivers.
#[verifier::external_body]
pub fn bus_new(capacity: usize) -> tokio::sync::broadcast::Sender<Vec<u8>>
    requires
        1 <= capacity <= usize::MAX / 2,
{
    tokio::sync::broadcast::Sender::new(capacity)
}

/// Relies on tokio::sync::broadcast::Sender::subscribe: the receiver enters
/// at the stream's current position and sees only later messages.
#[verifier::external_body]
pub fn bus_subscribe(tx: &tokio::sync::broadcast::Sender<Vec<u8>>) -> tokio::sync::broadcast::Receiver<
    Vec<u8>,
> {
    tx.subscribe()
}

/// Relies on tokio::sync::broadcast::Sender::send: the message is queued for
/// every currently connected receiver and comes back in the error when there
/// is none. The producer never blocks.
#[verifier::external_body]
pub fn bus_send(tx: &tokio::sync::broadcast::Sender<Vec<u8>>, msg: Vec<u8>) -> (r: Result<
    usize,
    Vec<u8>,
>)
    ensures
        r is Err ==> r->Err_0@ == msg@,
{
    match tx.send(msg) {
        Ok(count) => Ok(count),
        Err(tokio::sync::broadcast::error::SendError(v)) => Err(v),
    }
}

/// Relies on tokio::sync::broadcast::Sender::receiver_count.
#[verifier::external_body]
pub fn bus_receiver_count(tx: &tokio::sync::broadcast::Sender<Vec<u8>>) -> usize {
    tx.receiver_count()
}

/// The bus capacity the process boots with: the configured value where the
/// bus accepts it, and the default otherwise.
pub open spec fn chosen_capacity(setting: Option<usize>) -> usize {
    match setting {
        Some(c) => if 1 <= c && c <= usize::MAX / 2 {
            c
        } else {
            DEFAULT_BROADCAST_CAPACITY
        },
        None => DEFAULT_BROADCAST_CAPACITY,
    }
}

/// Open the state-update bus at boot, with the configured capacity where
/// it is usable and the default otherwise.
pub fn start_state_bus(setting: Option<usize>) -> (r: (
    tokio::sync::broadcast::Sender<Vec<u8>>,
    usize,
))
    ensures
        r.1 == chosen_capacity(setting),
        1 <= r.1 <= usize::MAX / 2,
{
    let capacity: usize = match setting {
        Some(c) => if 1 <= c && c <= usize::MAX / 2 {
            c
        } else {
            DEFAULT_BROADCAST_CAPACITY
        },
        None => DEFAULT_BROADCAST_CAPACITY,
    };
    let tx = bus_new(capacity);
    (tx, capacity)
}

/// Attach one observer: subscribe to the bus first, then render the
/// initial waiting list from the queue snapshot, so that no change slips
/// between the picture and the stream.
pub fn observer_connect(
    bus: &tokio::sync::broadcast::Sender<Vec<u8>>,
    snapshot: &Vec<Guid>,
) -> (r: (tokio::sync::broadcast::Receiver<Vec<u8>>, Vec<u8>))
    ensures
        is_waitlist_fragment(r.1@, snapshot@),
{
    let rx = bus_subscribe(bus);
    let initial = render_waitlist(snapshot);
    (rx, initial)
}

/// The broker channel carrying matched submissions.
pub open spec fn callbacks_channel() -> Seq<u8> {
    seq![99u8, 97u8, 108u8, 108u8, 98u8, 97u8, 99u8, 107u8, 115u8]
}

/// The broker channel carrying queue changes.
pub open spec fn state_updates_channel() -> Seq<u8> {
    seq![115u8, 116u8, 97u8, 116u8, 101u8, 95u8, 117u8, 112u8, 100u8, 97u8, 116u8, 101u8, 115u8]
}

/// What the fan-in task did with one broker message.
#[derive(Clone, Copy, PartialEq, Eq, Structural, Debug)]
pub enum RouteOutcome {
    /// A callbacks message: the named waiter's slot was resolved as stated.
    Delivered(Guid, DeliverOutcome),
    /// A state-updates message, broadcast to observers (`true`) or dropped
    /// because none is connected or the bus refused it (`false`).
    Forwarded(StateUpdate, bool),
    /// The payload is not a message of its channel; dropped.
    BadPayload,
    /// A channel this process does not consume; dropped.
    UnknownChannel,
}

/// Route one broker message: deliver a callback into the table, or fan a
/// state update out to the observers. Never fails; a payload that decodes
/// to nothing is dropped and reported.
pub fn route_message(
    channel: &Vec<u8>,
    payload: &Vec<u8>,
    table: &mut CallbackTable,
    bus: &tokio::sync::broadcast::Sender<Vec<u8>>,
) -> (r: RouteOutcome)
    requires
        old(table).wf(),
    ensures
        final(table).wf(),
        channel@ == callbacks_channel() ==> forall|g: Guid, n: Seq<u8>|
            is_callback_payload(payload@, g, n) ==> {
                &&& r == RouteOutcome::Delivered(g, r->Delivered_1)
                &&& final(table).guids() == seq_remove_guid(old(table).guids(), g)
                &&& !final(table).contains_guid(g)
                &&& ((r->Delivered_1 is NoListener) <==> !old(table).contains_guid(g))
            },
        channel@ == callbacks_channel() && (forall|g: Guid, n: Seq<u8>|
            !is_callback_payload(payload@, g, n)) ==> r is BadPayload,
        channel@ == state_updates_channel() ==> forall|u: StateUpdate|
            is_state_update_payload(payload@, u) ==> r == RouteOutcome::Forwarded(
                u,
                r->Forwarded_1,
            ),
        channel@ == state_updates_channel() && (forall|u: StateUpdate|
            !is_state_update_payload(payload@, u)) ==> r is BadPayload,
        channel@ != callbacks_channel() ==> final(table).guids() == old(table).guids(),
        channel@ != callbacks_channel() && channel@ != state_updates_channel() ==> r
            is UnknownChannel,
{
    if channel.len() == 9 && channel[0] == 99 && channel[1] == 97 && channel[2] == 108
        && channel[3] == 108 && channel[4] == 98 && channel[5] == 97 && channel[6] == 99
        && channel[7] == 107 && channel[8] == 115 {
        proof {
            assert(channel@ =~= callbacks_channel());
        }
        match decode_callback(payload) {
            Some((g, n)) => {
                let outcome = deliver(table, g, n);
                proof {
                    assert forall|g2: Guid, n2: Seq<u8>|
                        is_callback_payload(payload@, g2, n2) implies g2 == g by {
                        lemma_callback_payload_unique(payload@, g2, n2, g, n@);
                    }
                }
                RouteOutcome::Delivered(g, outcome)
            },
            None => RouteOutcome::BadPayload,
        }
    } else if channel.len() == 13 && channel[0] == 115 && channel[1] == 116 && channel[2] == 97
        && channel[3] == 116 && channel[4] == 101 && channel[5] == 95 && channel[6] == 117
        && channel[7] == 112 && channel[8] == 100 && channel[9] == 97 && channel[10] == 116
        && channel[11] == 101 && channel[12] == 115 {
        proof {
            assert(channel@ =~= state_updates_channel());
            assert(channel@ != callbacks_channel());
        }
        match decode_state_update(payload) {
            Some(u) => {
                let fragment = match &u {
                    StateUpdate::Added(g) => render_list_item(g, false),
                    StateUpdate::Removed(g) => render_list_item(g, true),
                };
                let sent: bool = if bus_receiver_count(bus) > 0 {
                    match bus_send(bus, fragment) {
                        Ok(_) => true,
                        Err(_) => false,
                    }
                } else {
                    false
                };
                proof {
                    assert forall|u2: StateUpdate|
                        is_state_update_payload(payload@, u2) implies u2 == u by {
                        crate::message::lemma_state_update_payload_unique(payload@, u2, u);
                    }
                }
                RouteOutcome::Forwarded(u, sent)
            },
            None => RouteOutcome::BadPayload,
        }
    } else {
        proof {
            assert(channel@ != callbacks_channel());
            assert(channel@ != state_updates_channel());
        }
        RouteOutcome::UnknownChannel
    }
}

} // verus!

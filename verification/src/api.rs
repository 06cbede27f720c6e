//! Handler logic for the HTTP API.
//!
//! The requester handler (`/get`) parses its request identifier, installs a
//! delivery slot, waits, and answers from the wait's outcome; the provider
//! handler (`/submit`) validates the number, matches it to the oldest waiter
//! and publishes the effects. The waiting, the broker commands and the HTTP
//! plumbing are the unverified caller's; every decision and every byte of
//! the responses is fixed here.

use vstd::prelude::*;

use crate::banned::number_ok;
use crate::banned::BannedSet;
use crate::fragments::input_field_error_bytes;
use crate::fragments::input_field_success_bytes;
use crate::fragments::input_field_warning_bytes;
use crate::fragments::render_input_field_error;
use crate::fragments::render_input_field_success;
use crate::fragments::render_input_field_warning;
use crate::guid::guid_of_text;
use crate::guid::is_guid_text;
use crate::guid::parse_guid;
use crate::guid::Guid;
use crate::message::encode_state_update;
use crate::message::encode_callback;
use crate::message::is_callback_payload;
use crate::message::is_state_update_payload;
use crate::message::StateUpdate;
use crate::table::oneshot_pair;
use crate::table::CallbackTable;

verus! {

/// The handlers' error type, converted to a status code at the HTTP edge.
#[derive(Clone, Copy, PartialEq, Eq, Structural, Debug)]
pub enum RrgError {
    /// The `x-request-id` header is not a well-formed GUID.
    Uuid,
    /// The `x-request-id` header holds bytes that are not visible ASCII.
    ToStr,
    /// No route matches the request.
    NotFound,
    /// A page failed to render.
    RenderingInternalError,
    /// A broker or internal failure.
    Other,
}

impl RrgError {
    /// The status code each error answers with: client faults are 400,
    /// a missing page is 404, everything internal is 500.
    pub fn status_code(&self) -> (r: u16)
        ensures
            (*self == RrgError::Uuid || *self == RrgError::ToStr) ==> r == 400,
            *self == RrgError::NotFound ==> r == 404,
            (*self == RrgError::RenderingInternalError || *self == RrgError::Other) ==> r == 500,
    {
        match self {
            RrgError::Uuid => 400,
            RrgError::ToStr => 400,
            RrgError::NotFound => 404,
            RrgError::RenderingInternalError => 500,
            RrgError::Other => 500,
        }
    }
}

/// Read the GUID out of the `x-request-id` header. The middleware injects
/// it, so a malformed value is a programmer error answered with 400.
pub fn parse_request_id(header: &Vec<u8>) -> (r: Result<Guid, RrgError>)
    ensures
        r is Ok <==> is_guid_text(header@),
        r is Ok ==> r->Ok_0 == guid_of_text(header@),
        r is Err ==> r->Err_0 == RrgError::Uuid,
{
    match parse_guid(header) {
        Some(g) => Ok(g),
        None => Err(RrgError::Uuid),
    }
}

/// An HTTP answer: status, body, and whether to close the connection.
pub struct HttpReply {
    pub status: u16,
    pub body: Vec<u8>,
    pub connection_close: bool,
}

/// How a requester's wait ended.
pub enum WaitOutcome {
    /// A provider's number arrived on the slot.
    Received(Vec<u8>),
    /// The deadline elapsed first.
    TimedOut,
    /// The slot was resolved without a value: an internal fault.
    ChannelClosed,
}

/// The `/get` answer for each way the wait can end: the number and a
/// newline with 200; a timeout with 408 and `Connection: close`; an
/// internal fault with 500.
pub fn respond_after_wait(outcome: WaitOutcome) -> (r: HttpReply)
    ensures
        outcome matches WaitOutcome::Received(n) ==> r.status == 200 && r.body@ == n@ + seq![10u8]
            && !r.connection_close,
        outcome is TimedOut ==> r.status == 408 && r.body@.len() == 0 && r.connection_close,
        outcome is ChannelClosed ==> r.status == 500 && r.body@.len() == 0
            && !r.connection_close,
{
    match outcome {
        WaitOutcome::Received(n) => {
            let mut body = n;
            body.push(10);
            proof {
                assert(body@ =~= outcome->Received_0@ + seq![10u8]);
            }
            HttpReply { status: 200, body, connection_close: false }
        },
        WaitOutcome::TimedOut => HttpReply {
            status: 408,
            body: Vec::new(),
            connection_close: true,
        },
        WaitOutcome::ChannelClosed => HttpReply {
            status: 500,
            body: Vec::new(),
            connection_close: false,
        },
    }
}

/// The three ways `/submit` answers.
#[derive(Clone, Copy, PartialEq, Eq, Structural, Debug)]
pub enum SubmitResponse {
    /// The number is banned or oversized: 400, no side effects.
    BadInput,
    /// Nobody is waiting: 200, no side effects.
    NoWaiters,
    /// The number went to the oldest waiter: 200.
    Matched,
}

impl SubmitResponse {
    /// The status code of this answer.
    pub fn status_code(&self) -> (r: u16)
        ensures
            *self == SubmitResponse::BadInput ==> r == 400,
            *self != SubmitResponse::BadInput ==> r == 200,
    {
        match self {
            SubmitResponse::BadInput => 400,
            SubmitResponse::NoWaiters => 200,
            SubmitResponse::Matched => 200,
        }
    }

    /// The HTML fragment of this answer, byte for byte.
    pub fn fragment(&self) -> (r: Vec<u8>)
        ensures
            *self == SubmitResponse::BadInput ==> r@ == input_field_error_bytes(),
            *self == SubmitResponse::NoWaiters ==> r@ == input_field_warning_bytes(),
            *self == SubmitResponse::Matched ==> r@ == input_field_success_bytes(),
    {
        match self {
            SubmitResponse::BadInput => render_input_field_error(),
            SubmitResponse::NoWaiters => render_input_field_warning(),
            SubmitResponse::Matched => render_input_field_success(),
        }
    }
}

/// Everything a successful match publishes: the callback that unblocks the
/// waiter, the `Removed` announcement, and the tally key to increment.
pub struct MatchEffects {
    pub callback_payload: Vec<u8>,
    pub removed_payload: Vec<u8>,
    pub tally_key: Vec<u8>,
}

/// Build the publishes for a match of `number` to the popped waiter `g`.
pub fn match_effects(g: &Guid, number: &Vec<u8>) -> (e: MatchEffects)
    ensures
        is_callback_payload(e.callback_payload@, *g, number@),
        is_state_update_payload(e.removed_payload@, StateUpdate::Removed(*g)),
        e.tally_key@ == number@,
{
    let callback_payload = encode_callback(g, number);
    let removed_payload = encode_state_update(&StateUpdate::Removed(*g));
    let mut tally_key: Vec<u8> = Vec::new();
    crate::bytes::append_vec(&mut tally_key, number);
    proof {
        assert(tally_key@ =~= number@);
    }
    MatchEffects { callback_payload, removed_payload, tally_key }
}

/// The provider handler's decision once the queue has been consulted:
/// an invalid number is rejected before any pop, an empty queue is answered
/// without side effects, and otherwise the number is matched to the popped
/// waiter with its three publishes.
pub fn submit_outcome(
    number: &Vec<u8>,
    banned: &BannedSet,
    popped: Option<Guid>,
) -> (r: (SubmitResponse, Option<MatchEffects>))
    requires
        number_ok(number@, banned.views()) || popped is None,
    ensures
        !number_ok(number@, banned.views()) ==> r.0 == SubmitResponse::BadInput && r.1 is None,
        number_ok(number@, banned.views()) && popped is None ==> r.0 == SubmitResponse::NoWaiters
            && r.1 is None,
        number_ok(number@, banned.views()) && popped is Some ==> {
            &&& r.0 == SubmitResponse::Matched
            &&& r.1 is Some
            &&& is_callback_payload(r.1->Some_0.callback_payload@, popped->Some_0, number@)
            &&& is_state_update_payload(
                r.1->Some_0.removed_payload@,
                StateUpdate::Removed(popped->Some_0),
            )
            &&& r.1->Some_0.tally_key@ == number@
        },
{
    if !crate::banned::validate_number(number, banned) {
        return (SubmitResponse::BadInput, None);
    }
    match popped {
        None => (SubmitResponse::NoWaiters, None),
        Some(g) => {
            let e = match_effects(&g, number);
            (SubmitResponse::Matched, Some(e))
        },
    }
}

/// Install the slot a fresh waiter will be delivered on, and announce it:
/// returns the receiving half the handler awaits and the `Added` payload to
/// publish after the GUID is enqueued. The slot enters the table before the
/// queue ever names the GUID, so a fast provider cannot find the GUID
/// without a listener existing.
pub fn install_slot(table: &mut CallbackTable, g: Guid) -> (r: (
    tokio::sync::oneshot::Receiver<Vec<u8>>,
    Vec<u8>,
))
    requires
        old(table).wf(),
        !old(table).contains_guid(g),
    ensures
        final(table).wf(),
        final(table).guids() == old(table).guids().push(g),
        final(table).contains_guid(g),
        is_state_update_payload(r.1@, StateUpdate::Added(g)),
{
    let (tx, rx) = oneshot_pair();
    table.insert(g, tx);
    let added = encode_state_update(&StateUpdate::Added(g));
    proof {
        assert(final(table).guids().last() == g);
        assert(final(table).guids().contains(g));
    }
    (rx, added)
}

/// The health answer: 200 while the broker answers pings, 500 otherwise.
pub fn health_status(ping_ok: bool) -> (r: u16)
    ensures
        ping_ok ==> r == 200,
        !ping_ok ==> r == 500,
{
    if ping_ok {
        200
    } else {
        500
    }
}

/// The states a waiting request passes through.
#[derive(Clone, Copy, PartialEq, Eq, Structural, Debug)]
pub enum RequestPhase {
    /// The slot is being installed and the GUID enqueued.
    Registering,
    /// Blocked on the slot with a deadline.
    Waiting,
    /// A provider's number arrived.
    Matched,
    /// The deadline elapsed.
    TimedOut,
    /// The client went away first.
    Cancelled,
}

/// The events that move a request between phases.
#[derive(Clone, Copy, PartialEq, Eq, Structural, Debug)]
pub enum RequestEvent {
    /// Slot installed, GUID enqueued, `Added` published.
    Registered,
    /// The slot yielded a number.
    SlotReceived,
    /// The wait deadline fired.
    DeadlineElapsed,
    /// The client disconnected mid-wait.
    Disconnected,
}

/// The request lifecycle: registering leads to waiting, and waiting ends in
/// exactly one of matched, timed out or cancelled. Any other pairing leaves
/// the phase alone.
pub open spec fn request_step_spec(p: RequestPhase, e: RequestEvent) -> RequestPhase {
    match (p, e) {
        (RequestPhase::Registering, RequestEvent::Registered) => RequestPhase::Waiting,
        (RequestPhase::Waiting, RequestEvent::SlotReceived) => RequestPhase::Matched,
        (RequestPhase::Waiting, RequestEvent::DeadlineElapsed) => RequestPhase::TimedOut,
        (RequestPhase::Waiting, RequestEvent::Disconnected) => RequestPhase::Cancelled,
        _ => p,
    }
}

/// A phase from which a request never moves again.
pub open spec fn is_terminal_phase(p: RequestPhase) -> bool {
    p == RequestPhase::Matched || p == RequestPhase::TimedOut || p == RequestPhase::Cancelled
}

/// Step the request lifecycle.
pub fn request_step(p: RequestPhase, e: RequestEvent) -> (r: RequestPhase)
    ensures
        r == request_step_spec(p, e),
{
    match (p, e) {
        (RequestPhase::Registering, RequestEvent::Registered) => RequestPhase::Waiting,
        (RequestPhase::Waiting, RequestEvent::SlotReceived) => RequestPhase::Matched,
        (RequestPhase::Waiting, RequestEvent::DeadlineElapsed) => RequestPhase::TimedOut,
        (RequestPhase::Waiting, RequestEvent::Disconnected) => RequestPhase::Cancelled,
        (other, _) => other,
    }
}

/// A terminal phase absorbs every further event: the three ends of a wait
/// are final.
pub proof fn lemma_terminal_phase_absorbs(p: RequestPhase, e: RequestEvent)
    requires
        is_terminal_phase(p),
    ensures
        request_step_spec(p, e) == p,
{
}

} // verus!

use random_rendezvous::api::{
    health_status, parse_request_id, respond_after_wait, RequestEvent, RequestPhase, RrgError,
    SubmitResponse, WaitOutcome,
};
use random_rendezvous::api::request_step;
use random_rendezvous::banned::BannedSet;
use random_rendezvous::bus::{bus_new, bus_subscribe, route_message, RouteOutcome};
use random_rendezvous::counts::Counts;
use random_rendezvous::fragments::render_list_item;
use random_rendezvous::guid::Guid;
use random_rendezvous::rendezvous::Rendezvous;
use random_rendezvous::table::DeliverOutcome;

fn guid(k: u64) -> Guid {
    Guid { hi: 0x018f000000007000, lo: 0x8000000000000000 + k }
}

fn banned_666() -> BannedSet {
    BannedSet::from_blob(&b"666\n13\n".to_vec())
}

fn new_matcher() -> Rendezvous {
    Rendezvous::new(banned_666())
}

#[test]
fn happy_path_delivers_the_number() {
    // A requester registers, a provider submits, the fan-in routes the
    // callback, and the waiter's channel yields the number.
    let mut m = new_matcher();
    let bus = bus_new(10);
    let (mut rx, added) = m.register(guid(1));
    assert_eq!(
        added,
        b"{\"Added\":\"018f0000-0000-7000-8000-000000000001\"}".to_vec()
    );

    let (resp, matched) = m.submit(&b"42".to_vec());
    assert_eq!(resp, SubmitResponse::Matched);
    let (g, effects) = matched.expect("a waiter was queued");
    assert_eq!(g, guid(1));

    let outcome = route_message(
        &b"callbacks".to_vec(),
        &effects.callback_payload,
        &mut m.table,
        &bus,
    );
    assert_eq!(outcome, RouteOutcome::Delivered(guid(1), DeliverOutcome::Sent));

    let number = rx.try_recv().expect("the slot must hold the number");
    assert_eq!(number, b"42".to_vec());

    let reply = respond_after_wait(WaitOutcome::Received(number));
    assert_eq!(reply.status, 200);
    assert_eq!(reply.body, b"42\n".to_vec());
    assert!(!reply.connection_close);

    let mut counts = Counts::new();
    counts.incr(&effects.tally_key);
    let top = counts.top_n(10);
    assert_eq!(top.len(), 1);
    assert_eq!(top[0].0, b"42".to_vec());
    assert_eq!(top[0].1, 1);
}

#[test]
fn fifo_first_waiter_wins() {
    // Waiters enter in order; a single submission takes the oldest, and
    // the younger ones keep waiting.
    let mut m = new_matcher();
    let (_rx1, _) = m.register(guid(1));
    let (_rx2, _) = m.register(guid(2));
    let (_rx3, _) = m.register(guid(3));

    let (resp, matched) = m.submit(&b"7".to_vec());
    assert_eq!(resp, SubmitResponse::Matched);
    let (g, _) = matched.unwrap();
    assert_eq!(g, guid(1));

    let left = m.queue.snapshot();
    assert_eq!(left, vec![guid(2), guid(3)]);
}

#[test]
fn banned_number_is_rejected_without_side_effects() {
    let mut m = new_matcher();
    let (_rx, _) = m.register(guid(1));
    let before = m.queue.snapshot();

    let (resp, matched) = m.submit(&b"666".to_vec());
    assert_eq!(resp, SubmitResponse::BadInput);
    assert!(matched.is_none());
    assert_eq!(resp.status_code(), 400);
    assert_eq!(m.queue.snapshot(), before);
}

#[test]
fn oversized_number_is_rejected() {
    let mut m = new_matcher();
    let long = vec![b'9'; 51];
    let (resp, matched) = m.submit(&long);
    assert_eq!(resp, SubmitResponse::BadInput);
    assert!(matched.is_none());
    let ok = vec![b'9'; 50];
    let (resp, _) = m.submit(&ok);
    assert_eq!(resp, SubmitResponse::NoWaiters);
}

#[test]
fn empty_queue_submit_reaches_nobody() {
    let mut m = new_matcher();
    let (resp, matched) = m.submit(&b"3".to_vec());
    assert_eq!(resp, SubmitResponse::NoWaiters);
    assert!(matched.is_none());
    assert_eq!(resp.status_code(), 200);
    let body = resp.fragment();
    let text = String::from_utf8(body).unwrap();
    assert!(text.contains("Nobody got your number!"));
}

#[test]
fn slot_is_taken_at_most_once() {
    // After the first delivery the waiter's slot is gone; a duplicate
    // callback finds no listener.
    let mut m = new_matcher();
    let bus = bus_new(10);
    let (mut rx, _) = m.register(guid(1));
    let (_, matched) = m.submit(&b"42".to_vec());
    let (_, effects) = matched.unwrap();

    let first = route_message(&b"callbacks".to_vec(), &effects.callback_payload, &mut m.table, &bus);
    assert_eq!(first, RouteOutcome::Delivered(guid(1), DeliverOutcome::Sent));
    let second =
        route_message(&b"callbacks".to_vec(), &effects.callback_payload, &mut m.table, &bus);
    assert_eq!(second, RouteOutcome::Delivered(guid(1), DeliverOutcome::NoListener));
    assert_eq!(rx.try_recv().unwrap(), b"42".to_vec());
}

#[test]
fn cleanup_clears_both_structures_and_is_idempotent() {
    let mut m = new_matcher();
    let (_rx, _) = m.register(guid(1));

    let removed = m.cleanup(guid(1), false).expect("first cleanup publishes");
    assert_eq!(
        removed,
        b"{\"Removed\":\"018f0000-0000-7000-8000-000000000001\"}".to_vec()
    );
    assert!(m.queue.is_empty());
    assert!(!m.table.contains(guid(1)));

    assert!(m.cleanup(guid(1), true).is_none());
    assert!(m.queue.is_empty());
}

#[test]
fn timeout_reply_closes_the_connection() {
    let reply = respond_after_wait(WaitOutcome::TimedOut);
    assert_eq!(reply.status, 408);
    assert!(reply.body.is_empty());
    assert!(reply.connection_close);
    let reply = respond_after_wait(WaitOutcome::ChannelClosed);
    assert_eq!(reply.status, 500);
}

#[test]
fn request_id_header_parsing() {
    let ok = parse_request_id(&b"018f0000-0000-7000-8000-000000000001".to_vec());
    assert_eq!(ok, Ok(guid(1)));
    let bad = parse_request_id(&b"not-a-guid".to_vec());
    assert_eq!(bad, Err(RrgError::Uuid));
    assert_eq!(RrgError::Uuid.status_code(), 400);
    assert_eq!(RrgError::NotFound.status_code(), 404);
    assert_eq!(RrgError::Other.status_code(), 500);
}

#[test]
fn health_follows_the_ping() {
    assert_eq!(health_status(true), 200);
    assert_eq!(health_status(false), 500);
}

#[test]
fn request_lifecycle_transitions() {
    assert_eq!(request_step(RequestPhase::Registering, RequestEvent::Registered), RequestPhase::Waiting);
    assert_eq!(request_step(RequestPhase::Waiting, RequestEvent::SlotReceived), RequestPhase::Matched);
    assert_eq!(
        request_step(RequestPhase::Waiting, RequestEvent::DeadlineElapsed),
        RequestPhase::TimedOut
    );
    assert_eq!(
        request_step(RequestPhase::Waiting, RequestEvent::Disconnected),
        RequestPhase::Cancelled
    );
    assert_eq!(
        request_step(RequestPhase::Matched, RequestEvent::DeadlineElapsed),
        RequestPhase::Matched
    );
    assert_eq!(
        request_step(RequestPhase::TimedOut, RequestEvent::SlotReceived),
        RequestPhase::TimedOut
    );
}

#[test]
fn fanout_publishes_added_then_removed() {
    // Observers connected before the enqueue see the Added fragment, and
    // after the match the Removed fragment, through the bus.
    let mut m = new_matcher();
    let bus = bus_new(10);
    let mut observer = bus_subscribe(&bus);

    let (_rx, added) = m.register(guid(1));
    let outcome = route_message(&b"state_updates".to_vec(), &added, &mut m.table, &bus);
    assert!(matches!(outcome, RouteOutcome::Forwarded(_, true)));
    assert_eq!(observer.try_recv().unwrap(), render_list_item(&guid(1), false));

    let (_, matched) = m.submit(&b"42".to_vec());
    let (_, effects) = matched.unwrap();
    let outcome = route_message(&b"state_updates".to_vec(), &effects.removed_payload, &mut m.table, &bus);
    assert!(matches!(outcome, RouteOutcome::Forwarded(_, true)));
    assert_eq!(observer.try_recv().unwrap(), render_list_item(&guid(1), true));
}

#[test]
fn routing_drops_junk_and_unknown_channels() {
    let mut m = new_matcher();
    let bus = bus_new(10);
    let outcome = route_message(&b"callbacks".to_vec(), &b"junk".to_vec(), &mut m.table, &bus);
    assert_eq!(outcome, RouteOutcome::BadPayload);
    let outcome = route_message(&b"state_updates".to_vec(), &b"junk".to_vec(), &mut m.table, &bus);
    assert_eq!(outcome, RouteOutcome::BadPayload);
    let outcome = route_message(&b"elsewhere".to_vec(), &b"junk".to_vec(), &mut m.table, &bus);
    assert_eq!(outcome, RouteOutcome::UnknownChannel);
}

#[test]
fn forwarding_without_observers_reports_the_drop() {
    let mut m = new_matcher();
    let bus = bus_new(10);
    let (_rx, added) = m.register(guid(1));
    let outcome = route_message(&b"state_updates".to_vec(), &added, &mut m.table, &bus);
    assert!(matches!(outcome, RouteOutcome::Forwarded(_, false)));
}

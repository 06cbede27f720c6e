use random_rendezvous::banned::{validate_number, BannedSet, MAX_NUMBER_LEN};
use random_rendezvous::config::{
    parse_log_level, parse_usize, LogLevel, DEFAULT_BROADCAST_CAPACITY,
    DEFAULT_OBSERVER_HEARTBEAT_SECS, DEFAULT_WAIT_TIMEOUT_SECS,
};
use random_rendezvous::counts::Counts;
use random_rendezvous::fragments::{
    render_input_field_error, render_input_field_success, render_input_field_warning,
    render_list_item, render_waitlist, NotFoundTemplate, SomethingWentWrongTemplate,
};
use random_rendezvous::guid::Guid;
use random_rendezvous::headers::CloudflareConnectingIp;
use random_rendezvous::layers::{
    reported_status, SentryReportStatusCodeLayer, SentryRequestIdLayer,
    SentryReportRequestSizeLayer,
};
use random_rendezvous::message::StateUpdate;
use random_rendezvous::middleware::{
    convert_http_status_to_sentry_status, SentryReportRequestInfoLayer, SpanStatusKind,
};
use random_rendezvous::observer::{observer_step, ObserverEvent, ObserverPhase, ObserverView};

fn guid(k: u64) -> Guid {
    Guid { hi: 0x018f000000007000, lo: 0x8000000000000000 + k }
}

#[test]
fn banned_set_loads_lines() {
    let set = BannedSet::from_blob(&b"666\r\n13\nlast".to_vec());
    assert!(set.contains(&b"666".to_vec()));
    assert!(set.contains(&b"13".to_vec()));
    assert!(set.contains(&b"last".to_vec()));
    assert!(!set.contains(&b"42".to_vec()));
}

#[test]
fn validation_checks_length_and_ban() {
    let set = BannedSet::from_blob(&b"666\n".to_vec());
    assert!(validate_number(&b"42".to_vec(), &set));
    assert!(!validate_number(&b"666".to_vec(), &set));
    assert!(validate_number(&vec![b'1'; MAX_NUMBER_LEN], &set));
    assert!(!validate_number(&vec![b'1'; MAX_NUMBER_LEN + 1], &set));
}

#[test]
fn observer_view_applies_updates_idempotently() {
    let mut view = ObserverView::new();
    view.apply(&StateUpdate::Added(guid(1)));
    view.apply(&StateUpdate::Added(guid(2)));
    // A duplicated Added changes nothing.
    view.apply(&StateUpdate::Added(guid(1)));
    assert_eq!(view.items(), vec![guid(1), guid(2)]);
    // A Removed deletes, and its duplicate changes nothing.
    view.apply(&StateUpdate::Removed(guid(1)));
    view.apply(&StateUpdate::Removed(guid(1)));
    assert_eq!(view.items(), vec![guid(2)]);
    // A straggling Removed for someone never shown is absorbed too.
    view.apply(&StateUpdate::Removed(guid(9)));
    assert_eq!(view.items(), vec![guid(2)]);
}

#[test]
fn observer_reconciles_from_snapshot() {
    let mut view = ObserverView::new();
    view.apply(&StateUpdate::Added(guid(9)));
    view.reconcile(&vec![guid(1), guid(2), guid(3)]);
    assert_eq!(view.items(), vec![guid(1), guid(2), guid(3)]);
}

#[test]
fn observer_lifecycle_transitions() {
    let s = ObserverPhase::Streaming;
    assert_eq!(observer_step(ObserverPhase::Connecting, ObserverEvent::Subscribed), s);
    assert_eq!(observer_step(s, ObserverEvent::UpdateForwarded), s);
    assert_eq!(observer_step(s, ObserverEvent::LagDropped), s);
    assert_eq!(observer_step(s, ObserverEvent::SendFailed), ObserverPhase::Closed);
    assert_eq!(observer_step(s, ObserverEvent::LagAborted), ObserverPhase::Closed);
    assert_eq!(observer_step(s, ObserverEvent::HeartbeatFailed), ObserverPhase::Closed);
    assert_eq!(observer_step(s, ObserverEvent::ClientClosed), ObserverPhase::Closed);
    assert_eq!(
        observer_step(ObserverPhase::Closed, ObserverEvent::Subscribed),
        ObserverPhase::Closed
    );
}

#[test]
fn list_item_fragments_are_exact() {
    let added = render_list_item(&guid(1), false);
    assert_eq!(
        added,
        b"<li id=\"018f0000-0000-7000-8000-000000000001\">018f0000-0000-7000-8000-000000000001</li>"
            .to_vec()
    );
    let removed = render_list_item(&guid(1), true);
    assert_eq!(
        removed,
        b"<li id=\"018f0000-0000-7000-8000-000000000001\" delete></li>".to_vec()
    );
}

#[test]
fn waitlist_fragment_lists_waiters_in_order() {
    let rendered = render_waitlist(&vec![guid(1), guid(2)]);
    let text = String::from_utf8(rendered).unwrap();
    assert!(text.starts_with("<ul id=\"waitlist\">"));
    assert!(text.ends_with("</ul>"));
    let first = text.find("018f0000-0000-7000-8000-000000000001").unwrap();
    let second = text.find("018f0000-0000-7000-8000-000000000002").unwrap();
    assert!(first < second);
}

#[test]
fn input_field_fragments_are_exact() {
    assert_eq!(
        render_input_field_error(),
        b"<div class=\"error\" classes=\"remove error\">Bad!</div>".to_vec()
    );
    assert_eq!(
        render_input_field_warning(),
        b"<div class=\"warning\" classes=\"remove warning\">Nobody got your number!</div>".to_vec()
    );
    assert_eq!(
        render_input_field_success(),
        b"<div class=\"success\" classes=\"remove success\">Thanks!</div>".to_vec()
    );
}

#[test]
fn error_pages_render() {
    let body = String::from_utf8(NotFoundTemplate.render()).unwrap();
    assert!(body.contains("404"));
    let body = String::from_utf8(SomethingWentWrongTemplate.render()).unwrap();
    assert!(body.contains("went wrong"));
}

#[test]
fn decimal_settings_parse_exactly() {
    assert_eq!(parse_usize(&b"10".to_vec()), Some(10));
    assert_eq!(parse_usize(&b"0".to_vec()), Some(0));
    assert_eq!(parse_usize(&b"007".to_vec()), Some(7));
    assert_eq!(parse_usize(&Vec::new()), None);
    assert_eq!(parse_usize(&b"1x".to_vec()), None);
    assert_eq!(parse_usize(&b"99999999999999999999999999".to_vec()), None);
    assert_eq!(parse_usize(&usize::MAX.to_string().into_bytes()), Some(usize::MAX));
}

#[test]
fn log_levels_parse_any_case() {
    assert_eq!(parse_log_level(&b"debug".to_vec()), Some(LogLevel::Debug));
    assert_eq!(parse_log_level(&b"TRACE".to_vec()), Some(LogLevel::Trace));
    assert_eq!(parse_log_level(&b"Info".to_vec()), Some(LogLevel::Info));
    assert_eq!(parse_log_level(&b"warn".to_vec()), Some(LogLevel::Warn));
    assert_eq!(parse_log_level(&b"ERROR".to_vec()), Some(LogLevel::Error));
    assert_eq!(parse_log_level(&b"loud".to_vec()), None);
}

#[test]
fn documented_defaults() {
    assert_eq!(DEFAULT_BROADCAST_CAPACITY, 10);
    assert_eq!(DEFAULT_WAIT_TIMEOUT_SECS, 30);
    assert_eq!(DEFAULT_OBSERVER_HEARTBEAT_SECS, 5);
}

#[test]
fn sentry_status_mapping_is_exact() {
    assert_eq!(convert_http_status_to_sentry_status(200), SpanStatusKind::Okay);
    assert_eq!(convert_http_status_to_sentry_status(401), SpanStatusKind::Unauthenticated);
    assert_eq!(convert_http_status_to_sentry_status(403), SpanStatusKind::PermissionDenied);
    assert_eq!(convert_http_status_to_sentry_status(404), SpanStatusKind::NotFound);
    assert_eq!(convert_http_status_to_sentry_status(409), SpanStatusKind::AlreadyExists);
    assert_eq!(convert_http_status_to_sentry_status(412), SpanStatusKind::FailedPrecondition);
    assert_eq!(convert_http_status_to_sentry_status(429), SpanStatusKind::ResourceExhausted);
    assert_eq!(convert_http_status_to_sentry_status(501), SpanStatusKind::Unimplemented);
    assert_eq!(convert_http_status_to_sentry_status(503), SpanStatusKind::Unavailable);
    assert_eq!(convert_http_status_to_sentry_status(408), SpanStatusKind::DeadlineExceeded);
    assert_eq!(convert_http_status_to_sentry_status(302), SpanStatusKind::Okay);
    assert_eq!(convert_http_status_to_sentry_status(418), SpanStatusKind::InvalidArgument);
    assert_eq!(convert_http_status_to_sentry_status(502), SpanStatusKind::InternalError);
    assert_eq!(convert_http_status_to_sentry_status(999), SpanStatusKind::UnknownError);
}

#[test]
fn status_code_layer_reports_three_codes() {
    assert_eq!(reported_status(200), Some(SpanStatusKind::Okay));
    assert_eq!(reported_status(400), Some(SpanStatusKind::InvalidArgument));
    assert_eq!(reported_status(500), Some(SpanStatusKind::InternalError));
    assert_eq!(reported_status(404), None);
}

#[test]
fn layers_wrap_their_services() {
    let wrapped = SentryRequestIdLayer.layer(7u32);
    assert_eq!(wrapped.service, 7);
    let wrapped = SentryReportRequestSizeLayer.layer(8u32);
    assert_eq!(wrapped.service, 8);
    let wrapped = SentryReportStatusCodeLayer.layer(9u32);
    assert_eq!(wrapped.inner, 9);
    let wrapped = SentryReportRequestInfoLayer.layer(10u32);
    assert_eq!(wrapped.inner, 10);
}

#[test]
fn tally_counts_and_orders() {
    let mut counts = Counts::new();
    for _ in 0..3 {
        counts.incr(&b"42".to_vec());
    }
    counts.incr(&b"7".to_vec());
    counts.incr(&b"7".to_vec());
    counts.incr(&b"1".to_vec());
    let top = counts.top_n(2);
    assert_eq!(top.len(), 2);
    assert_eq!(top[0], (b"42".to_vec(), 3));
    assert_eq!(top[1], (b"7".to_vec(), 2));
    let all = counts.top_n(10);
    assert_eq!(all.len(), 3);
    assert_eq!(all[2], (b"1".to_vec(), 1));
}

#[test]
fn client_ip_header_name() {
    assert_eq!(CloudflareConnectingIp::name(), b"cf-connecting-ip".to_vec());
}

#[test]
fn client_ip_decodes_dotted_quads() {
    let ip = CloudflareConnectingIp::decode(&b"1.2.3.4".to_vec()).unwrap();
    assert_eq!((ip.o1, ip.o2, ip.o3, ip.o4), (1, 2, 3, 4));
    let ip = CloudflareConnectingIp::decode(&b"255.255.255.255".to_vec()).unwrap();
    assert_eq!((ip.o1, ip.o2, ip.o3, ip.o4), (255, 255, 255, 255));
    let ip = CloudflareConnectingIp::decode(&b"0.0.0.0".to_vec()).unwrap();
    assert_eq!((ip.o1, ip.o2, ip.o3, ip.o4), (0, 0, 0, 0));
}

#[test]
fn client_ip_rejects_malformed_text() {
    for bad in [
        &b"256.1.1.1"[..],
        b"01.2.3.4",
        b"1.2.3",
        b"1..2.3",
        b"1.2.3.4.5",
        b"a.b.c.d",
        b"1.2.3.",
        b".1.2.3",
        b"",
        b"1234.1.1.1",
    ] {
        assert!(CloudflareConnectingIp::decode(&bad.to_vec()).is_none(), "{bad:?}");
    }
}

#[test]
fn client_ip_encode_round_trip() {
    let ip = CloudflareConnectingIp { o1: 10, o2: 0, o3: 200, o4: 1 };
    let text = ip.encode();
    assert_eq!(text, b"10.0.200.1".to_vec());
    assert_eq!(CloudflareConnectingIp::decode(&text), Some(ip));
}

use random_rendezvous::guid::{format_guid, parse_guid, Guid, GUID_TEXT_LEN};
use random_rendezvous::message::{
    decode_callback, decode_state_update, encode_callback, encode_state_update, StateUpdate,
};

fn g1() -> Guid {
    Guid { hi: 0x018f000000007000, lo: 0x8000000000000001 }
}

const G1_TEXT: &str = "018f0000-0000-7000-8000-000000000001";

#[test]
fn parse_canonical_guid_text() {
    let parsed = parse_guid(&G1_TEXT.as_bytes().to_vec()).expect("canonical text must parse");
    assert_eq!(parsed, g1());
}

#[test]
fn parse_accepts_uppercase_digits() {
    let parsed = parse_guid(&b"018F0000-0000-7000-8000-00000000000A".to_vec()).unwrap();
    assert_eq!(parsed.hi, 0x018f000000007000);
    assert_eq!(parsed.lo, 0x800000000000000a);
}

#[test]
fn parse_rejects_wrong_length() {
    assert!(parse_guid(&b"018f0000-0000-7000-8000-0000000000".to_vec()).is_none());
    assert!(parse_guid(&Vec::new()).is_none());
}

#[test]
fn parse_rejects_misplaced_hyphen() {
    assert!(parse_guid(&b"018f00000-000-7000-8000-000000000001".to_vec()).is_none());
}

#[test]
fn parse_rejects_bad_digit() {
    assert!(parse_guid(&b"018g0000-0000-7000-8000-000000000001".to_vec()).is_none());
}

#[test]
fn format_gives_canonical_lowercase_text() {
    let text = format_guid(&g1());
    assert_eq!(text.len(), GUID_TEXT_LEN);
    assert_eq!(text, G1_TEXT.as_bytes().to_vec());
}

#[test]
fn format_then_parse_round_trip() {
    let g = Guid { hi: 0xdeadbeef01234567, lo: 0x89abcdef00ff00ff };
    let text = format_guid(&g);
    assert_eq!(parse_guid(&text), Some(g));
}

#[test]
fn encode_added_is_exact_json() {
    let payload = encode_state_update(&StateUpdate::Added(g1()));
    let expected = format!("{{\"Added\":\"{}\"}}", G1_TEXT);
    assert_eq!(payload, expected.as_bytes().to_vec());
}

#[test]
fn encode_removed_is_exact_json() {
    let payload = encode_state_update(&StateUpdate::Removed(g1()));
    let expected = format!("{{\"Removed\":\"{}\"}}", G1_TEXT);
    assert_eq!(payload, expected.as_bytes().to_vec());
}

#[test]
fn state_update_round_trip() {
    for u in [StateUpdate::Added(g1()), StateUpdate::Removed(g1())] {
        let payload = encode_state_update(&u);
        assert_eq!(decode_state_update(&payload), Some(u));
    }
}

#[test]
fn decode_state_update_rejects_malformed() {
    assert!(decode_state_update(&b"{}".to_vec()).is_none());
    assert!(decode_state_update(&Vec::new()).is_none());
    let expected = format!("{{\"Addes\":\"{}\"}}", G1_TEXT);
    assert!(decode_state_update(&expected.as_bytes().to_vec()).is_none());
    let bad_guid = "{\"Added\":\"018g0000-0000-7000-8000-000000000001\"}";
    assert!(decode_state_update(&bad_guid.as_bytes().to_vec()).is_none());
}

#[test]
fn encode_callback_is_exact_json() {
    let payload = encode_callback(&g1(), &b"42".to_vec());
    let expected = format!("[\"{}\",\"42\"]", G1_TEXT);
    assert_eq!(payload, expected.as_bytes().to_vec());
}

#[test]
fn callback_round_trip_plain() {
    let payload = encode_callback(&g1(), &b"42".to_vec());
    let (g, n) = decode_callback(&payload).expect("own encoding must decode");
    assert_eq!(g, g1());
    assert_eq!(n, b"42".to_vec());
}

#[test]
fn callback_round_trip_with_escapes() {
    let tricky = b"a\"b\\c\nd\x01e".to_vec();
    let payload = encode_callback(&g1(), &tricky);
    let (g, n) = decode_callback(&payload).expect("escaped encoding must decode");
    assert_eq!(g, g1());
    assert_eq!(n, tricky);
}

#[test]
fn callback_escaping_is_visible_on_the_wire() {
    let payload = encode_callback(&g1(), &b"\"".to_vec());
    let expected = format!("[\"{}\",\"\\\"\"]", G1_TEXT);
    assert_eq!(payload, expected.as_bytes().to_vec());
    let payload = encode_callback(&g1(), &b"\x1f".to_vec());
    let expected = format!("[\"{}\",\"\\u001f\"]", G1_TEXT);
    assert_eq!(payload, expected.as_bytes().to_vec());
}

#[test]
fn decode_callback_rejects_malformed() {
    assert!(decode_callback(&Vec::new()).is_none());
    assert!(decode_callback(&b"[]".to_vec()).is_none());
    let raw_quote = format!("[\"{}\",\"\"\"]", G1_TEXT);
    assert!(decode_callback(&raw_quote.as_bytes().to_vec()).is_none());
    let raw_control = format!("[\"{}\",\"\n\"]", G1_TEXT);
    assert!(decode_callback(&raw_control.as_bytes().to_vec()).is_none());
    let non_canonical = format!("[\"{}\",\"\\u0041\"]", G1_TEXT);
    assert!(decode_callback(&non_canonical.as_bytes().to_vec()).is_none());
    let truncated = format!("[\"{}\",\"x\"", G1_TEXT);
    assert!(decode_callback(&truncated.as_bytes().to_vec()).is_none());
}

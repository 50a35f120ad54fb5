use chat_relay::envelope::Envelope;
use chat_relay::frame::inbound_envelope;
use chat_relay::hub::{Hub, InboundOutcome, OutboundEvent};

#[test]
fn envelope_accepts_up_to_128_characters() {
    let text_128: String = std::iter::repeat('a').take(128).collect();
    let env = Envelope::new(String::from("alice"), text_128.clone());
    assert!(env.is_some());
    let env = env.unwrap();
    assert_eq!(env.user, "alice");
    assert_eq!(env.text, text_128);

    let text_129: String = std::iter::repeat('a').take(129).collect();
    assert!(Envelope::new(String::from("alice"), text_129).is_none());
}

#[test]
fn envelope_length_is_measured_in_characters_not_bytes() {
    // 128 two-byte characters: 256 bytes, still within the bound.
    let text: String = std::iter::repeat('\u{e9}').take(128).collect();
    assert!(Envelope::new(String::from("alice"), text).is_some());
}

#[test]
fn wire_format_is_exact() {
    let env = Envelope::new(String::from("alice"), String::from("hi")).unwrap();
    assert_eq!(env.to_wire(), "{\n  \"user\": \"alice\",\n  \"message\": \"hi\"\n}");

    let env = Envelope::new(String::from(""), String::from("")).unwrap();
    assert_eq!(env.to_wire(), "{\n  \"user\": \"\",\n  \"message\": \"\"\n}");
}

#[test]
fn inbound_envelope_extracts_the_message_field() {
    let user = String::from("alice");
    let env = inbound_envelope(&user, "{\"message\":\"hello there\"}").unwrap();
    assert_eq!(env.user, "alice");
    assert_eq!(env.text, "hello there");

    // JSON escapes inside the field are decoded by the parser.
    let env = inbound_envelope(&user, "{\"message\":\"a\\\"b\"}").unwrap();
    assert_eq!(env.text, "a\"b");

    assert!(inbound_envelope(&user, "{}").is_none());
    assert!(inbound_envelope(&user, "{\"message\":[]}").is_none());
    assert!(inbound_envelope(&user, "").is_none());
}

#[test]
fn client_supplied_user_field_is_ignored() {
    let mut hub = Hub::new();
    let alice = hub.connect(8, String::from("alice"));
    assert_eq!(
        hub.client_frame(alice, "{\"user\":\"mallory\",\"message\":\"hi\"}"),
        InboundOutcome::Published
    );
    match hub.poll_outbound(alice) {
        OutboundEvent::Delivered(w) => {
            assert_eq!(w, "{\n  \"user\": \"alice\",\n  \"message\": \"hi\"\n}");
        }
        _ => panic!("expected a delivery"),
    }
}

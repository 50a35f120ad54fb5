use chat_relay::hub::{Hub, InboundOutcome, OutboundEvent};

fn deliver(hub: &mut Hub, sid: usize) -> String {
    match hub.poll_outbound(sid) {
        OutboundEvent::Delivered(w) => w,
        OutboundEvent::Lagged => panic!("unexpected lag"),
        OutboundEvent::Idle => panic!("unexpected idle"),
    }
}

fn expect_idle(hub: &mut Hub, sid: usize) {
    assert!(matches!(hub.poll_outbound(sid), OutboundEvent::Idle));
}

#[test]
fn two_sessions_one_room_scenario() {
    let mut hub = Hub::new();
    let alice = hub.connect(42, String::from("alice"));
    let bob = hub.connect(42, String::from("bob"));

    assert_eq!(
        hub.client_frame(alice, "{\"message\":\"hi\"}"),
        InboundOutcome::Published
    );

    let expected = "{\n  \"user\": \"alice\",\n  \"message\": \"hi\"\n}";
    assert_eq!(deliver(&mut hub, alice), expected);
    assert_eq!(deliver(&mut hub, bob), expected);
    assert_eq!(hub.read_views(), 2);
    expect_idle(&mut hub, alice);
    expect_idle(&mut hub, bob);
}

#[test]
fn oversized_text_is_never_published_and_session_continues() {
    let mut hub = Hub::new();
    let alice = hub.connect(1, String::from("alice"));
    let bob = hub.connect(1, String::from("bob"));

    let long_text: String = std::iter::repeat('x').take(129).collect();
    let frame = format!("{{\"message\":\"{}\"}}", long_text);
    assert_eq!(hub.client_frame(alice, &frame), InboundOutcome::Dropped);
    expect_idle(&mut hub, bob);
    assert_eq!(hub.read_views(), 0);

    assert_eq!(
        hub.client_frame(alice, "{\"message\":\"still here\"}"),
        InboundOutcome::Published
    );
    let got = deliver(&mut hub, bob);
    assert_eq!(got, "{\n  \"user\": \"alice\",\n  \"message\": \"still here\"\n}");
}

#[test]
fn text_of_exactly_128_multibyte_characters_is_accepted() {
    let mut hub = Hub::new();
    let alice = hub.connect(3, String::from("alice"));
    let text: String = std::iter::repeat('\u{e9}').take(128).collect();
    let frame = format!("{{\"message\":\"{}\"}}", text);
    assert_eq!(hub.client_frame(alice, &frame), InboundOutcome::Published);
    let got = deliver(&mut hub, alice);
    assert_eq!(got, format!("{{\n  \"user\": \"alice\",\n  \"message\": \"{}\"\n}}", text));
}

#[test]
fn malformed_frames_are_dropped_silently() {
    let mut hub = Hub::new();
    let alice = hub.connect(5, String::from("alice"));
    assert_eq!(hub.client_frame(alice, "not json"), InboundOutcome::Dropped);
    assert_eq!(hub.client_frame(alice, "{\"other\":\"x\"}"), InboundOutcome::Dropped);
    assert_eq!(hub.client_frame(alice, "{\"message\":5}"), InboundOutcome::Dropped);
    assert_eq!(hub.client_frame(alice, "[\"message\"]"), InboundOutcome::Dropped);
    expect_idle(&mut hub, alice);
    assert_eq!(hub.read_views(), 0);
}

#[test]
fn rooms_are_isolated() {
    let mut hub = Hub::new();
    let alice = hub.connect(1, String::from("alice"));
    let bob = hub.connect(2, String::from("bob"));
    assert_eq!(
        hub.client_frame(alice, "{\"message\":\"only room one\"}"),
        InboundOutcome::Published
    );
    expect_idle(&mut hub, bob);
    let got = deliver(&mut hub, alice);
    assert_eq!(got, "{\n  \"user\": \"alice\",\n  \"message\": \"only room one\"\n}");
}

#[test]
fn same_room_id_resolves_to_the_shared_room() {
    let mut hub = Hub::new();
    let first = hub.connect(7, String::from("first"));
    let second = hub.connect(7, String::from("second"));
    assert_eq!(
        hub.client_frame(second, "{\"message\":\"shared\"}"),
        InboundOutcome::Published
    );
    let got = deliver(&mut hub, first);
    assert_eq!(got, "{\n  \"user\": \"second\",\n  \"message\": \"shared\"\n}");
}

#[test]
fn subscriber_sees_only_what_follows_its_subscription() {
    let mut hub = Hub::new();
    let alice = hub.connect(9, String::from("alice"));
    assert_eq!(
        hub.client_frame(alice, "{\"message\":\"before\"}"),
        InboundOutcome::Published
    );
    let bob = hub.connect(9, String::from("bob"));
    assert_eq!(
        hub.client_frame(alice, "{\"message\":\"after\"}"),
        InboundOutcome::Published
    );
    let got = deliver(&mut hub, bob);
    assert_eq!(got, "{\n  \"user\": \"alice\",\n  \"message\": \"after\"\n}");
    expect_idle(&mut hub, bob);
}

#[test]
fn deliveries_arrive_in_publish_order() {
    let mut hub = Hub::new();
    let alice = hub.connect(11, String::from("alice"));
    let bob = hub.connect(11, String::from("bob"));
    for text in ["one", "two", "three"] {
        let frame = format!("{{\"message\":\"{}\"}}", text);
        assert_eq!(hub.client_frame(alice, &frame), InboundOutcome::Published);
    }
    for text in ["one", "two", "three"] {
        let got = deliver(&mut hub, bob);
        assert_eq!(got, format!("{{\n  \"user\": \"alice\",\n  \"message\": \"{}\"\n}}", text));
    }
    expect_idle(&mut hub, bob);
}

#[test]
fn view_counter_counts_every_delivery_and_resets() {
    let mut hub = Hub::new();
    let alice = hub.connect(20, String::from("alice"));
    let bob = hub.connect(20, String::from("bob"));
    let carol = hub.connect(21, String::from("carol"));
    assert_eq!(hub.client_frame(alice, "{\"message\":\"a\"}"), InboundOutcome::Published);
    assert_eq!(hub.client_frame(carol, "{\"message\":\"c\"}"), InboundOutcome::Published);
    deliver(&mut hub, alice);
    deliver(&mut hub, bob);
    deliver(&mut hub, carol);
    assert_eq!(hub.read_views(), 3);
    hub.reset_views();
    assert_eq!(hub.read_views(), 0);
    assert_eq!(hub.client_frame(alice, "{\"message\":\"b\"}"), InboundOutcome::Published);
    deliver(&mut hub, bob);
    assert_eq!(hub.read_views(), 1);
}

#[test]
fn slow_subscriber_lags_and_skips_to_oldest_retained() {
    let mut hub = Hub::new();
    let alice = hub.connect(30, String::from("alice"));
    let bob = hub.connect(30, String::from("bob"));
    for i in 0..150 {
        let frame = format!("{{\"message\":\"m{}\"}}", i);
        assert_eq!(hub.client_frame(alice, &frame), InboundOutcome::Published);
    }
    assert!(matches!(hub.poll_outbound(bob), OutboundEvent::Lagged));
    // 150 published, 100 retained: the oldest retained envelope is the 51st.
    let got = deliver(&mut hub, bob);
    assert_eq!(got, "{\n  \"user\": \"alice\",\n  \"message\": \"m50\"\n}");
    let got = deliver(&mut hub, bob);
    assert_eq!(got, "{\n  \"user\": \"alice\",\n  \"message\": \"m51\"\n}");
    // A subscriber exactly at the edge of the buffer does not lag.
    let carol = hub.connect(31, String::from("carol"));
    let dave = hub.connect(31, String::from("dave"));
    for i in 0..100 {
        let frame = format!("{{\"message\":\"n{}\"}}", i);
        assert_eq!(hub.client_frame(carol, &frame), InboundOutcome::Published);
    }
    let got = deliver(&mut hub, dave);
    assert_eq!(got, "{\n  \"user\": \"carol\",\n  \"message\": \"n0\"\n}");
}

#[test]
fn publisher_receives_its_own_messages() {
    let mut hub = Hub::new();
    let alice = hub.connect(40, String::from("alice"));
    assert_eq!(hub.client_frame(alice, "{\"message\":\"echo me\"}"), InboundOutcome::Published);
    let got = deliver(&mut hub, alice);
    assert_eq!(got, "{\n  \"user\": \"alice\",\n  \"message\": \"echo me\"\n}");
}

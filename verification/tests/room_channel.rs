use chat_relay::counter::ViewCounter;
use chat_relay::envelope::Envelope;
use chat_relay::registry::Registry;
use chat_relay::room::{Delivery, Room};

fn envelope(user: &str, text: &str) -> Envelope {
    Envelope::new(String::from(user), String::from(text)).unwrap()
}

#[test]
fn room_delivers_in_order_and_reports_pending() {
    let mut room = Room::new(5);
    assert_eq!(room.room_id(), 5);
    let mut c = room.subscribe();
    assert!(matches!(room.receive(&mut c), Delivery::Pending));
    room.publish(envelope("a", "x"));
    room.publish(envelope("a", "y"));
    match room.receive(&mut c) {
        Delivery::Ready(e) => assert_eq!(e.text, "x"),
        _ => panic!("expected a delivery"),
    }
    match room.receive(&mut c) {
        Delivery::Ready(e) => assert_eq!(e.text, "y"),
        _ => panic!("expected a delivery"),
    }
    assert!(matches!(room.receive(&mut c), Delivery::Pending));
    assert_eq!(room.published_count(), 2);
}

#[test]
fn room_buffer_keeps_only_the_last_hundred() {
    let mut room = Room::new(1);
    let mut c = room.subscribe();
    for i in 0..101 {
        room.publish(envelope("a", &format!("t{}", i)));
    }
    assert!(matches!(room.receive(&mut c), Delivery::Lagged));
    match room.receive(&mut c) {
        Delivery::Ready(e) => assert_eq!(e.text, "t1"),
        _ => panic!("expected a delivery"),
    }
}

#[test]
fn registry_returns_the_same_room_for_the_same_id() {
    let mut reg = Registry::new();
    let a = reg.get_or_create(10);
    let b = reg.get_or_create(11);
    let c = reg.get_or_create(10);
    assert_eq!(a, c);
    assert_ne!(a, b);
}

#[test]
fn view_counter_increments_reads_and_resets() {
    let mut v = ViewCounter::new();
    assert_eq!(v.read(), 0);
    v.increment();
    v.increment();
    assert_eq!(v.read(), 2);
    v.reset();
    assert_eq!(v.read(), 0);
}

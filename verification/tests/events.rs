//! Tests for the event bus.

use peer_chat::events::{emit_each, Event, EventHandler, NetworkEventEmitter, Subscribed};
use peer_chat::network::{decode_inbound, peer_added_events, peer_removed_events};
use peer_chat::Notifications;

#[test]
fn single_subscriber_single_event() {
    let mut bus: NetworkEventEmitter<Notifications> = NetworkEventEmitter::new();
    let a = bus.subscribe(Notifications::new());
    bus.emit(Event::PeerAdded("p1".to_string()));
    let observer = bus.get(a).expect("observer A is live");
    assert_eq!(observer.recorded().len(), 1);
    assert_eq!(observer.recorded()[0], Event::PeerAdded("p1".to_string()));
}

#[test]
fn dead_observer_pruning() {
    let mut bus: NetworkEventEmitter<Notifications> = NetworkEventEmitter::new();
    let a = bus.subscribe(Notifications::new());
    let b = bus.subscribe(Notifications::new());
    assert_eq!(bus.len(), 2);
    assert!(bus.release(b));
    bus.emit(Event::PeerRemoved("p2".to_string()));
    let observer = bus.get(a).expect("observer A is live");
    assert_eq!(observer.recorded().len(), 1);
    assert_eq!(observer.recorded()[0], Event::PeerRemoved("p2".to_string()));
    assert_eq!(bus.len(), 1);
    assert!(bus.get(b).is_none());
}

#[test]
fn events_arrive_in_emit_order() {
    let mut bus: NetworkEventEmitter<Notifications> = NetworkEventEmitter::new();
    let a = bus.subscribe(Notifications::new());
    let b = bus.subscribe(Notifications::new());
    let e1 = Event::Sub(Subscribed { peer: "p1".to_string(), topic: "t".to_string() });
    let e2 = Event::Unsub(Subscribed { peer: "p1".to_string(), topic: "t".to_string() });
    bus.emit(e1);
    bus.emit(e2);
    for handle in [a, b] {
        let observer = bus.get(handle).expect("observer is live");
        assert_eq!(observer.recorded().len(), 2);
        assert!(matches!(observer.recorded()[0], Event::Sub(_)));
        assert!(matches!(observer.recorded()[1], Event::Unsub(_)));
    }
}

#[test]
fn releasing_before_an_emit_hides_the_event() {
    let mut bus: NetworkEventEmitter<Notifications> = NetworkEventEmitter::new();
    let a = bus.subscribe(Notifications::new());
    bus.emit(Event::PeerAdded("p1".to_string()));
    assert!(bus.release(a));
    assert!(!bus.release(a));
    bus.emit(Event::PeerAdded("p2".to_string()));
    assert!(bus.get(a).is_none());
    assert_eq!(bus.len(), 0);
}

#[test]
fn batch_delivery_keeps_order() {
    let mut bus: NetworkEventEmitter<Notifications> = NetworkEventEmitter::new();
    let a = bus.subscribe(Notifications::new());
    let added = peer_added_events(vec!["p1".to_string(), "p2".to_string()]);
    emit_each(&mut bus, added);
    let removed = peer_removed_events(vec!["p1".to_string()]);
    emit_each(&mut bus, removed);
    let observer = bus.get(a).expect("observer A is live");
    assert_eq!(
        observer.recorded(),
        &vec![
            Event::PeerAdded("p1".to_string()),
            Event::PeerAdded("p2".to_string()),
            Event::PeerRemoved("p1".to_string()),
        ]
    );
}

#[test]
fn inbound_payloads_become_message_events() {
    let text = "{\"id\":\"123e4567-e89b-12d3-a456-426614174000\",\"source\":\"pA\",\"msg\":\"hi\",\"reply_id\":null,\"topic\":\"chat001\"}";
    match decode_inbound(text) {
        Some(Event::Msg(message)) => {
            assert_eq!(message.body().as_str(), "hi");
            assert_eq!(message.topic().as_str(), "chat001");
        },
        other => panic!("expected a message event, got {:?}", other),
    }
    assert!(decode_inbound("not json").is_none());
    assert!(decode_inbound("{\"id\":\"nope\",\"source\":\"a\",\"msg\":\"b\",\"reply_id\":null,\"topic\":\"c\"}").is_none());
}

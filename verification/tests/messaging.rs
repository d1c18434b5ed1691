//! Tests for the group and message workflows.

use peer_chat::messaging::groups::Group;
use peer_chat::messaging::pubsub::{RecordingPublisher, RecordingSubscriber};
use peer_chat::messaging::subscriptions::Subscriptions;
use peer_chat::messaging::{Message, NewGroup, NewMessage, Peer};
use peer_chat::storage::memory_storage::FailingStorage;
use peer_chat::storage::{Storage, StorageError};
use peer_chat::MemoryStorage;

fn setup() -> Peer {
    Peer::new("ank3r".to_string(), "shaddyshad".to_string())
}

#[test]
fn test_can_create_group() {
    let peer = setup();
    let subs = RecordingSubscriber::new();
    let storage: MemoryStorage<Group> = MemoryStorage::new();
    let mut new_group = peer.new_group("chat001".to_string(), storage, subs);
    assert!(!new_group.is_saved());
    new_group.subscribe().unwrap();
    assert!(new_group.is_saved());
}

#[test]
fn test_can_send_msg() {
    let peer = setup();
    let publisher: RecordingPublisher<Message> = RecordingPublisher::new();
    let storage: MemoryStorage<Message> = MemoryStorage::new();
    let mut new_msg = peer.new_message("chat001", "Hey bro, ssup", storage, publisher);
    assert!(!new_msg.is_saved());
    new_msg.send().unwrap();
    assert!(new_msg.is_saved());
}

#[test]
fn create_group_twice_persists_once() {
    let storage: MemoryStorage<Group> = MemoryStorage::new();
    let subscriber = RecordingSubscriber::new();
    let mut workflow = NewGroup {
        group_name: "chat001".to_string(),
        peer_id: "pA".to_string(),
        storage,
        subscriber,
    };
    workflow.subscribe().unwrap();
    assert_eq!(workflow.storage.list().len(), 1);
    assert_eq!(
        workflow.subscriber.subscribed,
        vec![("pA".to_string(), "chat001".to_string())]
    );
    workflow.subscribe().unwrap();
    assert_eq!(workflow.storage.list().len(), 1);
    assert_eq!(workflow.subscriber.subscribed.len(), 2);
}

#[test]
fn saved_group_carries_name_and_creator() {
    let storage: MemoryStorage<Group> = MemoryStorage::new();
    let mut workflow = NewGroup {
        group_name: "chat001".to_string(),
        peer_id: "pA".to_string(),
        storage,
        subscriber: RecordingSubscriber::new(),
    };
    workflow.save().unwrap();
    let groups = workflow.storage.list();
    assert_eq!(groups.len(), 1);
    assert_eq!(groups[0].name().as_str(), "chat001");
    assert_eq!(groups[0].peer_id(), "pA".to_string());
    assert_ne!(
        groups[0].id_string(),
        "00000000-0000-0000-0000-000000000000".to_string()
    );
}

#[test]
fn send_persists_then_publishes() {
    let storage: MemoryStorage<Message> = MemoryStorage::new();
    let publisher: RecordingPublisher<Message> = RecordingPublisher::new();
    let message = Message::new("hi", "pA", "chat001");
    let mut workflow = NewMessage { publisher, storage, message };
    assert!(!workflow.is_saved());
    workflow.send().unwrap();
    assert!(workflow.is_saved());
    assert_eq!(workflow.publisher.sent.len(), 1);
    assert_eq!(workflow.publisher.sent[0].body().as_str(), "hi");
    assert_eq!(workflow.publisher.sent[0].source().as_str(), "pA");
}

#[test]
fn unsubscribe_asks_the_subscriber() {
    let storage: MemoryStorage<Group> = MemoryStorage::new();
    let mut workflow = NewGroup {
        group_name: "chat001".to_string(),
        peer_id: "pA".to_string(),
        storage,
        subscriber: RecordingSubscriber::new(),
    };
    assert!(workflow.unsubscribe());
    assert_eq!(
        workflow.subscriber.unsubscribed,
        vec![("pA".to_string(), "chat001".to_string())]
    );
    assert!(workflow.subscriber.subscribed.is_empty());
    assert!(workflow.storage.list().is_empty());
}

#[test]
fn storage_failure_stops_the_subscription() {
    let mut workflow = NewGroup {
        group_name: "chat001".to_string(),
        peer_id: "pA".to_string(),
        storage: FailingStorage::<Group>::new(),
        subscriber: RecordingSubscriber::new(),
    };
    assert_eq!(workflow.subscribe(), Err(StorageError::Backend));
    assert!(workflow.subscriber.subscribed.is_empty());
}

#[test]
fn storage_failure_stops_the_publication() {
    let publisher: RecordingPublisher<Message> = RecordingPublisher::new();
    let message = Message::new("hi", "pA", "chat001");
    let mut workflow = NewMessage {
        publisher,
        storage: FailingStorage::<Message>::new(),
        message,
    };
    assert_eq!(workflow.send(), Err(StorageError::Backend));
    assert!(workflow.publisher.sent.is_empty());
}

#[test]
fn subscriptions_capability_records_too() {
    let mut recorder = RecordingSubscriber::new();
    assert!(Subscriptions::subscribe(&mut recorder, "pA", "chat001"));
    assert!(Subscriptions::unsubscribe(&mut recorder, "pA", "chat001"));
    assert_eq!(recorder.subscribed.len(), 1);
    assert_eq!(recorder.unsubscribed.len(), 1);
}

#[test]
fn message_ids_are_not_nil() {
    let message = Message::new("hello", "pA", "chat001");
    assert_ne!(
        message.id(),
        "00000000-0000-0000-0000-000000000000".to_string()
    );
    assert_eq!(message.group_name().as_str(), "chat001");
    assert_eq!(message.timestamp_millis() > 0, true);
}

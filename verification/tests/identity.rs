//! Tests for the identity holder and the topic registry.

use peer_chat::keystore::KeyStore;
use peer_chat::peer::Peer;

#[test]
fn keystore_yields_an_identity() {
    let keystore = KeyStore::new();
    let text = keystore.id_string();
    assert!(!text.is_empty());
    assert_eq!(text, keystore.id_string());
    assert!(keystore.noise_keys().is_some());
}

#[test]
fn distinct_keystores_have_distinct_ids() {
    let first = KeyStore::new();
    let second = KeyStore::new();
    assert_ne!(first.id_string(), second.id_string());
}

#[test]
fn joining_a_topic_is_idempotent() {
    let mut peer = Peer::new();
    assert!(peer.join_topic("chat001".to_string()));
    assert!(!peer.join_topic("chat001".to_string()));
    assert!(peer.join_topic("chat002".to_string()));
    assert_eq!(
        peer.get_topics(),
        vec!["chat001".to_string(), "chat002".to_string()]
    );
    assert!(peer.joined("chat002"));
    assert!(!peer.joined("chat003"));
}

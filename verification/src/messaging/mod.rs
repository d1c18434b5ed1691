//! The messaging domain: the local peer, and the workflows it starts to
//! create groups and send messages.

use vstd::prelude::*;

pub mod groups;
pub mod listing;
pub mod messages;
pub mod pubsub;
pub mod subscriptions;

pub use groups::{Group, NewGroup};
pub use messages::{Message, NewMessage};
pub use pubsub::{Publisher, Subscriber};

use crate::storage::Storage;

verus! {

/// A peer is the main actor in the messaging system.
#[derive(Debug)]
pub struct Peer {
    peer_id: String,
    username: String,
}

/// The mathematical content of a peer.
pub struct PeerView {
    pub peer_id: Seq<char>,
    pub username: Seq<char>,
}

impl View for Peer {
    type V = PeerView;

    closed spec fn view(&self) -> PeerView {
        PeerView { peer_id: self.peer_id@, username: self.username@ }
    }
}

impl Peer {
    /// A peer under the given network identity and display name.
    pub fn new(peer_id: String, username: String) -> (peer: Self)
        ensures
            peer@.peer_id == peer_id@,
            peer@.username == username@,
    {
        Self { peer_id, username }
    }

    /// The peer's network identity.
    pub fn peer_id(&self) -> (peer_id: &String)
        ensures
            peer_id@ == self@.peer_id,
    {
        &self.peer_id
    }

    /// The peer's display name.
    pub fn username(&self) -> (username: &String)
        ensures
            username@ == self@.username,
    {
        &self.username
    }

    /// Start the workflow that creates `group_name` and subscribes this
    /// peer to it.
    pub fn new_group<S, M>(&self, group_name: String, storage: S, subscriber: M) -> (workflow:
        NewGroup<S, M>)
        where S: Storage<Item = Group>, M: Subscriber
        ensures
            workflow.group_name@ == group_name@,
            workflow.peer_id@ == self@.peer_id,
            workflow.storage == storage,
            workflow.subscriber == subscriber,
    {
        NewGroup { group_name, storage, subscriber, peer_id: self.peer_id.clone() }
    }

    /// Start the workflow that sends `message` from this peer to
    /// `group_name`.
    pub fn new_message<P, S>(
        &self,
        group_name: &str,
        message: &str,
        storage: S,
        publisher: P,
    ) -> (workflow: NewMessage<P, S>)
        where P: Publisher<Message>, S: Storage<Item = Message>
        ensures
            workflow.message@.msg == message@,
            workflow.message@.source == self@.peer_id,
            workflow.message@.group_name == group_name@,
            workflow.message.valid(),
            workflow.storage == storage,
            workflow.publisher == publisher,
    {
        let msg = Message::new(message, self.peer_id.as_str(), group_name);
        NewMessage { publisher, storage, message: msg }
    }
}

} // verus!

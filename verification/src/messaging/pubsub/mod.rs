//! Capabilities through which the workflows reach the message streams:
//! subscribing a peer to a topic, and publishing a message. Both are
//! effects performed by the host; their abstract views record every
//! request the workflow made, so callers can state exactly what was
//! asked of the network.

use vstd::prelude::*;

verus! {

/// A capability that subscribes and unsubscribes peers to topics.
/// `subscriptions` and `unsubscriptions` are the requests made so far,
/// in order, as (peer id, topic) pairs. The returned answers are the
/// implementation's own; nothing is promised of them.
pub trait Subscriber: Sized {
    /// Every subscribe request made so far.
    spec fn subscriptions(&self) -> Seq<(Seq<char>, Seq<char>)>;

    /// Every unsubscribe request made so far.
    spec fn unsubscriptions(&self) -> Seq<(Seq<char>, Seq<char>)>;

    /// Subscribe a peer to a topic. Answers true if the subscription is
    /// new, false if it already existed.
    fn subscribe(&mut self, peer_id: &str, topic: &str) -> (newly: bool)
        ensures
            final(self).subscriptions() == old(self).subscriptions().push((peer_id@, topic@)),
            final(self).unsubscriptions() == old(self).unsubscriptions(),
    ;

    /// Unsubscribe a peer from a topic. Answers true if the peer was
    /// subscribed, false otherwise.
    fn unsubscribe(&mut self, peer_id: &str, topic: &str) -> (was: bool)
        ensures
            final(self).unsubscriptions() == old(self).unsubscriptions().push((peer_id@, topic@)),
            final(self).subscriptions() == old(self).subscriptions(),
    ;
}

/// A capability that pushes messages to a message stream, best-effort.
/// `published` is every message handed over so far, in order.
pub trait Publisher<T>: Sized {
    /// Every message handed to the stream so far.
    spec fn published(&self) -> Seq<T>;

    /// Publish a message to a chat board.
    fn publish(&mut self, message: T)
        ensures
            final(self).published() == old(self).published().push(message),
    ;
}

/// A subscriber that only records the requests; every answer is true.
#[derive(Debug)]
pub struct RecordingSubscriber {
    pub subscribed: Vec<(String, String)>,
    pub unsubscribed: Vec<(String, String)>,
}

/// The views of recorded (peer id, topic) pairs.
pub open spec fn pair_views(pairs: Seq<(String, String)>) -> Seq<(Seq<char>, Seq<char>)> {
    pairs.map_values(|pair: (String, String)| (pair.0@, pair.1@))
}

impl RecordingSubscriber {
    /// A recorder with no requests yet.
    pub fn new() -> (recorder: Self)
        ensures
            recorder.subscriptions() == Seq::<(Seq<char>, Seq<char>)>::empty(),
            recorder.unsubscriptions() == Seq::<(Seq<char>, Seq<char>)>::empty(),
    {
        Self { subscribed: Vec::new(), unsubscribed: Vec::new() }
    }
}

impl Subscriber for RecordingSubscriber {
    /// The recorded subscribe requests.
    open spec fn subscriptions(&self) -> Seq<(Seq<char>, Seq<char>)> {
        pair_views(self.subscribed@)
    }

    /// The recorded unsubscribe requests.
    open spec fn unsubscriptions(&self) -> Seq<(Seq<char>, Seq<char>)> {
        pair_views(self.unsubscribed@)
    }

    fn subscribe(&mut self, peer_id: &str, topic: &str) -> (newly: bool) {
        self.subscribed.push((peer_id.to_owned(), topic.to_owned()));
        proof {
            assert(self.subscriptions() =~= old(self).subscriptions().push((peer_id@, topic@)));
        }
        true
    }

    fn unsubscribe(&mut self, peer_id: &str, topic: &str) -> (was: bool) {
        self.unsubscribed.push((peer_id.to_owned(), topic.to_owned()));
        proof {
            assert(self.unsubscriptions() =~= old(self).unsubscriptions().push((peer_id@, topic@)));
        }
        true
    }
}

/// A publisher that only keeps what it is handed.
#[derive(Debug)]
pub struct RecordingPublisher<T> {
    pub sent: Vec<T>,
}

impl<T> RecordingPublisher<T> {
    /// A recorder with no messages yet.
    pub fn new() -> (recorder: Self)
        ensures
            recorder.sent@ == Seq::<T>::empty(),
    {
        Self { sent: Vec::new() }
    }
}

impl<T> Publisher<T> for RecordingPublisher<T> {
    /// The recorded messages.
    open spec fn published(&self) -> Seq<T> {
        self.sent@
    }

    fn publish(&mut self, message: T) {
        self.sent.push(message);
    }
}

} // verus!

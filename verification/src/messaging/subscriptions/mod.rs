//! The subscription capability under its older name, kept for callers
//! of earlier iterations; it asks exactly what `pubsub::Subscriber`
//! asks.

use vstd::prelude::*;

verus! {

/// A capability that subscribes and unsubscribes peers to topics in
/// the message streams. `subscriptions` and `unsubscriptions` are the
/// requests made so far, in order, as (peer id, topic) pairs.
pub trait Subscriptions: Sized {
    /// Every subscribe request made so far.
    spec fn subscriptions(&self) -> Seq<(Seq<char>, Seq<char>)>;

    /// Every unsubscribe request made so far.
    spec fn unsubscriptions(&self) -> Seq<(Seq<char>, Seq<char>)>;

    /// Subscribe a peer to a topic. Answers true if the subscription is
    /// new, false if it already existed.
    fn subscribe(&mut self, peer_id: &str, topic: &str) -> (newly: bool)
        ensures
            final(self).subscriptions() == old(self).subscriptions().push((peer_id@, topic@)),
            final(self).unsubscriptions() == old(self).unsubscriptions(),
    ;

    /// Unsubscribe a peer from a topic. Answers true if the peer was
    /// subscribed, false otherwise.
    fn unsubscribe(&mut self, peer_id: &str, topic: &str) -> (was: bool)
        ensures
            final(self).unsubscriptions() == old(self).unsubscriptions().push((peer_id@, topic@)),
            final(self).subscriptions() == old(self).subscriptions(),
    ;
}

impl Subscriptions for super::pubsub::RecordingSubscriber {
    /// The recorded subscribe requests.
    open spec fn subscriptions(&self) -> Seq<(Seq<char>, Seq<char>)> {
        super::pubsub::pair_views(self.subscribed@)
    }

    /// The recorded unsubscribe requests.
    open spec fn unsubscriptions(&self) -> Seq<(Seq<char>, Seq<char>)> {
        super::pubsub::pair_views(self.unsubscribed@)
    }

    fn subscribe(&mut self, peer_id: &str, topic: &str) -> (newly: bool) {
        self.subscribed.push((peer_id.to_owned(), topic.to_owned()));
        proof {
            assert(Subscriptions::subscriptions(self) =~= Subscriptions::subscriptions(
                old(self),
            ).push((peer_id@, topic@)));
        }
        true
    }

    fn unsubscribe(&mut self, peer_id: &str, topic: &str) -> (was: bool) {
        self.unsubscribed.push((peer_id.to_owned(), topic.to_owned()));
        proof {
            assert(Subscriptions::unsubscriptions(self) =~= Subscriptions::unsubscriptions(
                old(self),
            ).push((peer_id@, topic@)));
        }
        true
    }
}

} // verus!

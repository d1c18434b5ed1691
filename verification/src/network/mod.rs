//! The boundary between the raw network events and the event bus: raw
//! payloads and peer notices become `Event` values here. The transport,
//! discovery and pub/sub machinery itself is a host concern.

use vstd::prelude::*;

use crate::events::Event;
use crate::pubsub::json::message_of_chars;
use crate::pubsub::Message;

verus! {

/// Translate an inbound payload: the message event it denotes, or
/// nothing when the payload is not a well-formed wire message — such a
/// payload is dropped and the bus is not notified.
pub fn decode_inbound(payload: &str) -> (event: Option<Event>)
    ensures
        match event {
            Some(decoded) => message_of_chars(payload@) is Some && (decoded matches Event::Msg(m)
                && m@ == message_of_chars(payload@).unwrap()),
            None => message_of_chars(payload@) is None,
        },
{
    match Message::deserialize(payload) {
        Some(message) => Some(Event::Msg(message)),
        None => None,
    }
}

/// The discovery notices for `names`, in order.
pub open spec fn peer_added(names: Seq<String>) -> Seq<Event> {
    names.map_values(|name: String| Event::PeerAdded(name))
}

/// The expiry notices for `names`, in order.
pub open spec fn peer_removed(names: Seq<String>) -> Seq<Event> {
    names.map_values(|name: String| Event::PeerRemoved(name))
}

/// One discovery notice per discovered peer, in order.
pub fn peer_added_events(peers: Vec<String>) -> (events: Vec<Event>)
    ensures
        events@ == peer_added(peers@),
{
    let mut events: Vec<Event> = Vec::new();
    let mut i: usize = 0;
    while i < peers.len()
        invariant
            i <= peers@.len(),
            events@ == peer_added(peers@.subrange(0, i as int)),
        decreases peers@.len() - i,
    {
        events.push(Event::PeerAdded(peers[i].clone()));
        i = i + 1;
        proof {
            assert(peers@.subrange(0, i as int) =~= peers@.subrange(0, i - 1).push(
                peers@[i - 1],
            ));
            assert(events@ =~= peer_added(peers@.subrange(0, i as int)));
        }
    }
    proof {
        assert(peers@.subrange(0, peers@.len() as int) =~= peers@);
    }
    events
}

/// One expiry notice per expired peer, in order.
pub fn peer_removed_events(peers: Vec<String>) -> (events: Vec<Event>)
    ensures
        events@ == peer_removed(peers@),
{
    let mut events: Vec<Event> = Vec::new();
    let mut i: usize = 0;
    while i < peers.len()
        invariant
            i <= peers@.len(),
            events@ == peer_removed(peers@.subrange(0, i as int)),
        decreases peers@.len() - i,
    {
        events.push(Event::PeerRemoved(peers[i].clone()));
        i = i + 1;
        proof {
            assert(peers@.subrange(0, i as int) =~= peers@.subrange(0, i - 1).push(
                peers@[i - 1],
            ));
            assert(events@ =~= peer_removed(peers@.subrange(0, i as int)));
        }
    }
    proof {
        assert(peers@.subrange(0, peers@.len() as int) =~= peers@);
    }
    events
}

} // verus!

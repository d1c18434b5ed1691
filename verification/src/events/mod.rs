//! The event bus: events that flow from the network to the observers,
//! the observer capability, and a synchronous, single-writer fan-out
//! registry that prunes registrations whose observer was released.
//!
//! Observers are owned by the registry and addressed through handles;
//! releasing the handle's slot is the owner's way of dropping the
//! observer, after which no later event reaches it and the next emit
//! removes the registration.

use vstd::prelude::*;

use crate::pubsub::Message;

verus! {

/// Event emitted when a peer subscribes to or unsubscribes from a topic.
#[derive(Debug, PartialEq)]
pub struct Subscribed {
    pub peer: String,
    pub topic: String,
}

impl Clone for Subscribed {
    fn clone(&self) -> (copy: Self)
        ensures
            copy == *self,
    {
        Self { peer: self.peer.clone(), topic: self.topic.clone() }
    }
}

/// Events that can be emitted in the network.
#[derive(Debug, PartialEq)]
pub enum Event {
    Msg(Message),
    Sub(Subscribed),
    Unsub(Subscribed),
    PeerAdded(String),
    PeerRemoved(String),
}

impl Clone for Event {
    fn clone(&self) -> (copy: Self)
        ensures
            copy == *self,
    {
        match self {
            Event::Msg(message) => Event::Msg(message.clone()),
            Event::Sub(subscribed) => Event::Sub(subscribed.clone()),
            Event::Unsub(subscribed) => Event::Unsub(subscribed.clone()),
            Event::PeerAdded(peer) => Event::PeerAdded(peer.clone()),
            Event::PeerRemoved(peer) => Event::PeerRemoved(peer.clone()),
        }
    }
}

/// Types that can handle events. `events` is the abstract trace of
/// every event the observer has seen, oldest first; `handle` appends
/// exactly the delivered event to it.
pub trait EventHandler: Sized {
    /// The events observed so far, in delivery order.
    spec fn events(&self) -> Seq<Event>;

    fn handle(&mut self, event: &Event)
        ensures
            final(self).events() == old(self).events().push(*event),
    ;
}

/// Types that can emit events to a set of observers. `live_logs` is the
/// observation trace of each currently live observer, in registration
/// order.
pub trait EventEmitter<T: EventHandler>: Sized {
    /// The traces of the live observers, in registration order.
    spec fn live_logs(&self) -> Seq<Seq<Event>>;

    /// Whether another observer can still be registered.
    spec fn can_subscribe(&self) -> bool;

    /// Register an observer; it sees only events emitted afterwards.
    fn subscribe(&mut self, handler: T) -> (handle: u64)
        requires
            old(self).can_subscribe(),
        ensures
            final(self).live_logs() == old(self).live_logs().push(handler.events()),
    ;

    /// Deliver `event` to every live observer, in registration order.
    fn emit(&mut self, event: Event)
        ensures
            final(self).live_logs() == old(self).live_logs().map_values(
                |log: Seq<Event>| log.push(event),
            ),
    ;
}

/// One slot of the registry: the handle it was issued under, and the
/// observer, or nothing once the owner released it.
#[derive(Debug)]
pub struct Registration<T> {
    pub id: u64,
    pub observer: Option<T>,
}

/// Whether a registration still holds its observer.
pub open spec fn is_live<T>(registration: Registration<T>) -> bool {
    registration.observer is Some
}

/// The observation trace of a live registration.
pub open spec fn log_of<T: EventHandler>(registration: Registration<T>) -> Seq<Event> {
    registration.observer.unwrap().events()
}

/// How one emitted event transforms the registry: exactly the live
/// registrations survive, in order, under their handles, and each
/// observer's trace grows by exactly that event.
pub open spec fn delivered_to<T: EventHandler>(
    before: Seq<Registration<T>>,
    after: Seq<Registration<T>>,
    event: Event,
) -> bool {
    let live = before.filter(|registration: Registration<T>| is_live(registration));
    &&& after.len() == live.len()
    &&& forall|i: int|
        0 <= i < after.len() ==> {
            &&& (#[trigger] after[i]).id == live[i].id
            &&& is_live(after[i])
            &&& log_of(after[i]) == log_of(live[i]).push(event)
        }
}

/// Network event emitter: the registry of observers.
#[derive(Debug)]
pub struct NetworkEventEmitter<T> {
    entries: Vec<Registration<T>>,
    next_id: u64,
}

impl<T> NetworkEventEmitter<T> {
    /// The registrations, live and released, in registration order.
    pub closed spec fn registrations(&self) -> Seq<Registration<T>> {
        self.entries@
    }

    /// How many handles have been issued so far; also the next handle.
    pub closed spec fn issued(&self) -> u64 {
        self.next_id
    }

    /// An empty registry.
    pub fn new() -> (emitter: Self)
        ensures
            emitter.registrations() == Seq::<Registration<T>>::empty(),
            emitter.issued() == 0,
    {
        Self { entries: Vec::new(), next_id: 0 }
    }

    /// Whether another observer can still be registered: handles are
    /// drawn from a 64-bit counter, which must not be spent.
    pub fn can_register(&self) -> (possible: bool)
        ensures
            possible == (self.issued() < u64::MAX),
    {
        self.next_id < u64::MAX
    }

    /// How many registrations the registry holds, released slots included.
    pub fn len(&self) -> (count: usize)
        ensures
            count == self.registrations().len(),
    {
        self.entries.len()
    }

    /// The observer registered under `handle`, while it is live.
    pub fn get(&self, handle: u64) -> (observer: Option<&T>)
        ensures
            match observer {
                Some(observer) => exists|i: int|
                    0 <= i < self.registrations().len() && #[trigger] self.registrations()[i].id
                        == handle && self.registrations()[i].observer == Some(*observer),
                None => forall|i: int|
                    0 <= i < self.registrations().len() ==> (#[trigger] self.registrations()[i].id
                        != handle || !is_live(self.registrations()[i])),
            },
    {
        let mut i: usize = 0;
        while i < self.entries.len()
            invariant
                i <= self.entries@.len(),
                forall|j: int|
                    0 <= j < i ==> (#[trigger] self.entries@[j].id != handle || !is_live(
                        self.entries@[j],
                    )),
            decreases self.entries@.len() - i,
        {
            if self.entries[i].id == handle {
                match &self.entries[i].observer {
                    Some(observer) => {
                        return Some(observer);
                    },
                    None => {},
                }
            }
            i = i + 1;
        }
        None
    }

    /// Release the observer registered under `handle`: the slot stays
    /// until the next emit, but no further event reaches the observer.
    /// Reports whether a live observer was released.
    pub fn release(&mut self, handle: u64) -> (was_live: bool)
        ensures
            final(self).registrations().len() == old(self).registrations().len(),
            final(self).issued() == old(self).issued(),
            forall|i: int|
                0 <= i < old(self).registrations().len() && (#[trigger] old(
                    self,
                ).registrations()[i]).id != handle ==> final(self).registrations()[i] == old(
                    self,
                ).registrations()[i],
            forall|i: int|
                0 <= i < old(self).registrations().len() && (#[trigger] old(
                    self,
                ).registrations()[i]).id == handle ==> final(self).registrations()[i]
                    == (Registration { id: handle, observer: None::<T> }),
            was_live == exists|i: int|
                0 <= i < old(self).registrations().len() && (#[trigger] old(
                    self,
                ).registrations()[i]).id == handle && is_live(old(self).registrations()[i]),
    {
        let mut was_live = false;
        let mut i: usize = 0;
        while i < self.entries.len()
            invariant
                i <= self.entries@.len(),
                self.entries@.len() == old(self).registrations().len(),
                self.next_id == old(self).issued(),
                forall|j: int|
                    i <= j < self.entries@.len() ==> self.entries@[j] == old(self).registrations()[j],
                forall|j: int|
                    0 <= j < i && (#[trigger] old(self).registrations()[j]).id != handle
                        ==> self.entries@[j] == old(self).registrations()[j],
                forall|j: int|
                    0 <= j < i && (#[trigger] old(self).registrations()[j]).id == handle
                        ==> self.entries@[j] == (Registration { id: handle, observer: None::<T> }),
                was_live == exists|j: int|
                    0 <= j < i && (#[trigger] old(self).registrations()[j]).id == handle && is_live(
                        old(self).registrations()[j],
                    ),
            decreases self.entries@.len() - i,
        {
            if self.entries[i].id == handle {
                proof {
                    assert(old(self).registrations()[i as int].id == handle);
                }
                let slot = &mut self.entries[i];
                let taken = slot.observer.take();
                if taken.is_some() {
                    was_live = true;
                    proof {
                        assert(is_live(old(self).registrations()[i as int]));
                    }
                } else {
                    proof {
                        assert(!is_live(old(self).registrations()[i as int]));
                    }
                }
            }
            i = i + 1;
        }
        was_live
    }

}

impl<T: EventHandler> NetworkEventEmitter<T> {
    /// Register `handler` under a fresh handle; it sees only events
    /// emitted after this call.
    pub fn subscribe(&mut self, handler: T) -> (handle: u64)
        requires
            old(self).issued() < u64::MAX,
        ensures
            handle == old(self).issued(),
            final(self).issued() == old(self).issued() + 1,
            final(self).registrations() == old(self).registrations().push(
                Registration { id: handle, observer: Some(handler) },
            ),
    {
        let handle = self.next_id;
        self.entries.push(Registration { id: handle, observer: Some(handler) });
        self.next_id = self.next_id + 1;
        handle
    }

    /// Deliver `event` to every live observer, in registration order,
    /// then prune the released registrations.
    pub fn emit(&mut self, event: Event)
        ensures
            delivered_to(old(self).registrations(), final(self).registrations(), event),
            final(self).issued() == old(self).issued(),
    {
        let mut pending: Vec<Registration<T>> = Vec::new();
        core::mem::swap(&mut pending, &mut self.entries);
        let ghost before = pending@;
        proof {
            assert(before.subrange(0, 0) =~= Seq::<Registration<T>>::empty());
            reveal(Seq::filter);
        }
        while pending.len() > 0
            invariant
                pending@.len() <= before.len(),
                pending@ == before.subrange(
                    before.len() - pending@.len(),
                    before.len() as int,
                ),
                delivered_to(
                    before.subrange(0, before.len() - pending@.len()),
                    self.entries@,
                    event,
                ),
                self.next_id == old(self).issued(),
            decreases pending@.len(),
        {
            let ghost done = before.len() - pending@.len();
            let registration = pending.remove(0);
            proof {
                assert(registration == before[done]);
                assert(pending@ =~= before.subrange(before.len() - pending@.len(), before.len() as int));
                assert(before.subrange(0, done + 1) =~= before.subrange(0, done).push(
                    before[done],
                ));
                crate::storage::lemma_filter_push(
                    before.subrange(0, done),
                    |registration: Registration<T>| is_live(registration),
                    before[done],
                );
            }
            match registration.observer {
                Some(mut observer) => {
                    observer.handle(&event);
                    self.entries.push(Registration { id: registration.id, observer: Some(observer) });
                },
                None => {},
            }
        }
        proof {
            assert(before.subrange(0, before.len() as int) =~= before);
        }
    }
}

/// Filtering keeps a sequence whole when every element passes.
proof fn lemma_filter_identity<A>(s: Seq<A>, pred: spec_fn(A) -> bool)
    requires
        forall|i: int| 0 <= i < s.len() ==> pred(#[trigger] s[i]),
    ensures
        s.filter(pred) == s,
    decreases s.len(),
{
    reveal(Seq::filter);
    if s.len() > 0 {
        let rest = s.drop_last();
        lemma_filter_identity(rest, pred);
        assert(pred(s[s.len() - 1]));
        assert(s.filter(pred) =~= s);
    }
}

/// Law: an observer released before an emit does not see the event and
/// does not survive it. The emit transforms exactly the registrations
/// that are still live — a released slot contributes nothing to the
/// result and is removed.
pub proof fn lemma_released_pruned<T: EventHandler>(
    before: Seq<Registration<T>>,
    after: Seq<Registration<T>>,
    event: Event,
)
    requires
        delivered_to(before, after, event),
    ensures
        forall|j: int| 0 <= j < after.len() ==> is_live(#[trigger] after[j]),
        after.len() == before.filter(|registration: Registration<T>| is_live(registration)).len(),
        forall|j: int|
            0 <= j < after.len() ==> #[trigger] log_of(after[j]) == log_of(
                before.filter(|registration: Registration<T>| is_live(registration))[j],
            ).push(event),
{
}

/// The observers' traces after the events of `events` are emitted in
/// order.
pub open spec fn fan_out(logs: Seq<Seq<Event>>, events: Seq<Event>) -> Seq<Seq<Event>>
    decreases events.len(),
{
    if events.len() == 0 {
        logs
    } else {
        fan_out(logs.map_values(|log: Seq<Event>| log.push(events[0])), events.drop_first())
    }
}

/// Law: emitting the events of `events` in order extends every live
/// observer's trace by exactly those events, in that order — each
/// observer sees each event exactly once, and all observers see the
/// same order.
pub proof fn lemma_fan_out_appends(logs: Seq<Seq<Event>>, events: Seq<Event>)
    ensures
        fan_out(logs, events).len() == logs.len(),
        forall|i: int|
            0 <= i < logs.len() ==> #[trigger] fan_out(logs, events)[i] == logs[i] + events,
    decreases events.len(),
{
    if events.len() == 0 {
        assert forall|i: int| 0 <= i < logs.len() implies #[trigger] fan_out(logs, events)[i]
            == logs[i] + events by {
            assert(logs[i] + events =~= logs[i]);
        }
    } else {
        let stepped = logs.map_values(|log: Seq<Event>| log.push(events[0]));
        lemma_fan_out_appends(stepped, events.drop_first());
        assert forall|i: int| 0 <= i < logs.len() implies #[trigger] fan_out(logs, events)[i]
            == logs[i] + events by {
            assert(fan_out(logs, events)[i] == stepped[i] + events.drop_first());
            assert(stepped[i] == logs[i].push(events[0]));
            assert(logs[i].push(events[0]) + events.drop_first() =~= logs[i] + events);
        }
    }
}

/// Emit each event of `events`, in order, to every live observer: the
/// adapter's batch delivery.
pub fn emit_each<T: EventHandler, E: EventEmitter<T>>(emitter: &mut E, events: Vec<Event>)
    ensures
        final(emitter).live_logs() == old(emitter).live_logs().map_values(
            |log: Seq<Event>| log + events@,
        ),
{
    let ghost initial = emitter.live_logs();
    let mut i: usize = 0;
    while i < events.len()
        invariant
            i <= events@.len(),
            emitter.live_logs() == initial.map_values(
                |log: Seq<Event>| log + events@.subrange(0, i as int),
            ),
        decreases events@.len() - i,
    {
        emitter.emit(events[i].clone());
        i = i + 1;
        proof {
            let pre = events@.subrange(0, i - 1);
            let cur = events@.subrange(0, i as int);
            assert(cur =~= pre.push(events@[i - 1]));
            assert forall|k: int| 0 <= k < initial.len() implies #[trigger] (initial[k]
                + pre).push(events@[i - 1]) == initial[k] + cur by {
                assert((initial[k] + pre).push(events@[i - 1]) =~= initial[k] + cur);
            }
            assert(emitter.live_logs() =~= initial.map_values(|log: Seq<Event>| log + cur));
        }
    }
    proof {
        assert(events@.subrange(0, events@.len() as int) =~= events@);
        assert(emitter.live_logs() =~= old(emitter).live_logs().map_values(
            |log: Seq<Event>| log + events@,
        ));
    }
}

impl<T: EventHandler> EventEmitter<T> for NetworkEventEmitter<T> {
    /// The traces of the live observers, in registration order.
    open spec fn live_logs(&self) -> Seq<Seq<Event>> {
        self.registrations().filter(|registration: Registration<T>| is_live(registration))
            .map_values(|registration: Registration<T>| log_of(registration))
    }

    /// Handles are drawn from a 64-bit counter; it must not be spent.
    open spec fn can_subscribe(&self) -> bool {
        self.issued() < u64::MAX
    }

    fn subscribe(&mut self, handler: T) -> (handle: u64) {
        let handle = self.subscribe(handler);
        proof {
            let live = |registration: Registration<T>| is_live(registration);
            let pushed = Registration { id: handle, observer: Some(handler) };
            crate::storage::lemma_filter_push(old(self).registrations(), live, pushed);
            assert(self.live_logs() =~= old(self).live_logs().push(handler.events()));
        }
        handle
    }

    fn emit(&mut self, event: Event) {
        self.emit(event);
        proof {
            let live = |registration: Registration<T>| is_live(registration);
            let survivors = old(self).registrations().filter(live);
            lemma_filter_identity(self.registrations(), live);
            assert(self.live_logs() =~= old(self).live_logs().map_values(
                |log: Seq<Event>| log.push(event),
            ));
        }
    }
}

} // verus!

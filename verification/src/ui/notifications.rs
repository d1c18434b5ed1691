//! Notifications observer for the user interface: it records every
//! event delivered to it, in order, for the host to render.

use vstd::prelude::*;

use crate::events::{Event, EventHandler};

verus! {

/// An observer that keeps the events it is handed, oldest first.
#[derive(Debug)]
pub struct Notifications {
    received: Vec<Event>,
}

impl Notifications {
    /// An observer that has seen nothing yet.
    pub fn new() -> (notifications: Self)
        ensures
            notifications.events() == Seq::<Event>::empty(),
    {
        Self { received: Vec::new() }
    }

    /// Every event handled so far, in delivery order.
    pub fn recorded(&self) -> (events: &Vec<Event>)
        ensures
            events@ == self.events(),
    {
        &self.received
    }
}

impl EventHandler for Notifications {
    /// The recorded events are exactly the observation trace.
    closed spec fn events(&self) -> Seq<Event> {
        self.received@
    }

    fn handle(&mut self, event: &Event) {
        self.received.push(event.clone());
    }
}

} // verus!

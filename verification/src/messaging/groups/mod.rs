//! Group chats: the `Group` entity and the workflow that creates and
//! subscribes to one.

use vstd::prelude::*;

use crate::clock::now_millis;
use crate::ids::{fresh_uuid, uuid_chars, uuid_to_string};
use crate::storage::Record;

pub mod list_groups;
pub mod new_group;

pub use new_group::NewGroup;

verus! {

/// A named chat room: created once, persisted, never mutated.
#[derive(Debug)]
pub struct Group {
    name: String,
    id: u128,
    creator: String,
    ts: u64,
}

/// The mathematical content of a group.
pub struct GroupView {
    pub name: Seq<char>,
    pub id: u128,
    pub creator: Seq<char>,
    pub ts: u64,
}

impl View for Group {
    type V = GroupView;

    closed spec fn view(&self) -> GroupView {
        GroupView { name: self.name@, id: self.id, creator: self.creator@, ts: self.ts }
    }
}

impl Group {
    /// Every stored group carries a non-nil id.
    pub open spec fn valid(&self) -> bool {
        self@.id != 0
    }

    /// A fresh group: a new id, the current instant, the given name and
    /// creator.
    pub fn new(name: String, creator: String) -> (group: Self)
        ensures
            group@.name == name@,
            group@.creator == creator@,
            group.valid(),
    {
        Self { name, creator, id: fresh_uuid(), ts: now_millis() }
    }

    /// The peer id of the creator.
    pub fn peer_id(&self) -> (creator: String)
        ensures
            creator@ == self@.creator,
    {
        self.creator.clone()
    }

    /// The group's name.
    pub fn name(&self) -> (name: &String)
        ensures
            name@ == self@.name,
    {
        &self.name
    }

    /// The group id in its hyphenated text form.
    pub fn id_string(&self) -> (text: String)
        ensures
            text@ == uuid_chars(self@.id),
    {
        uuid_to_string(self.id)
    }

    /// When the group was created, in milliseconds since the Unix epoch.
    pub fn created_at_millis(&self) -> (ts: u64)
        ensures
            ts == self@.ts,
    {
        self.ts
    }
}

impl Clone for Group {
    fn clone(&self) -> (copy: Self)
        ensures
            copy == *self,
    {
        Self {
            name: self.name.clone(),
            id: self.id,
            creator: self.creator.clone(),
            ts: self.ts,
        }
    }
}

impl Record for Group {
    fn duplicate(&self) -> (copy: Self) {
        self.clone()
    }
}

} // verus!

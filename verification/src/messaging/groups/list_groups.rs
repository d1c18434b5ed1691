//! A cursor over the groups a given peer created. The query runs once,
//! on the first step, and the snapshot is walked from there.

use vstd::prelude::*;

use super::Group;
use crate::storage::{matching, QueryPredicate, Record, Storage};

verus! {

/// Query matching groups registered by a peer.
#[derive(Debug)]
pub struct FindGroup(pub String);

impl QueryPredicate<Group> for FindGroup {
    open spec fn matches_spec(&self, other: &Group) -> bool {
        other@.creator == self.0@
    }

    fn matches(&self, other: &Group) -> (decision: bool) {
        self.0 == other.creator
    }
}

impl Clone for FindGroup {
    fn clone(&self) -> (copy: Self)
        ensures
            copy == *self,
    {
        FindGroup(self.0.clone())
    }
}

impl Record for FindGroup {
    fn duplicate(&self) -> (copy: Self) {
        self.clone()
    }
}

/// A cursor over the groups created by one peer.
pub struct ListGroups<S: Storage<Item = Group>> {
    storage: S,
    peer_id: String,
    snapshot: Option<Vec<Group>>,
    next: usize,
}

impl<S: Storage<Item = Group>> ListGroups<S> {
    /// The snapshot taken on the first step, if any step was taken.
    pub closed spec fn taken(&self) -> Option<Seq<Group>> {
        match self.snapshot {
            Some(items) => Some(items@),
            None => None,
        }
    }

    /// How many groups have been handed out.
    pub closed spec fn cursor(&self) -> int {
        self.next as int
    }

    /// The store the listing reads.
    pub closed spec fn store(&self) -> Seq<Group> {
        self.storage.items()
    }

    /// The peer whose groups are listed.
    pub closed spec fn peer(&self) -> Seq<char> {
        self.peer_id@
    }

    /// The groups of `items` created by `peer`, in insertion order.
    pub open spec fn created_by(items: Seq<Group>, peer: Seq<char>) -> Seq<Group> {
        items.filter(|group: Group| group@.creator == peer)
    }

    /// A listing at its start; nothing has been read yet.
    pub fn new(peer_id: String, storage: S) -> (listing: Self)
        ensures
            listing.taken() is None,
            listing.cursor() == 0,
            listing.store() == storage.items(),
            listing.peer() == peer_id@,
    {
        Self { storage, peer_id, snapshot: None, next: 0 }
    }

    /// The next group this peer created. The first step snapshots the
    /// query result; later steps walk the snapshot in insertion order.
    pub fn next(&mut self) -> (item: Option<Group>)
        ensures
            ({
                let snap = match old(self).taken() {
                    None => Self::created_by(old(self).store(), old(self).peer()),
                    Some(items) => items,
                };
                &&& final(self).taken() == Some(snap)
                &&& item == (if old(self).cursor() < snap.len() {
                    Some(snap[old(self).cursor()])
                } else {
                    None::<Group>
                })
                &&& final(self).cursor() == old(self).cursor() + (
                if old(self).cursor() < snap.len() {
                    1int
                } else {
                    0int
                })
                &&& final(self).store() == old(self).store()
                &&& final(self).peer() == old(self).peer()
            }),
    {
        if self.snapshot.is_none() {
            let query = FindGroup(self.peer_id.clone());
            let found = self.storage.find(query);
            proof {
                crate::storage::lemma_filter_congruent(
                    self.storage.items(),
                    |item: Group| query.matches_spec(&item),
                    |group: Group| group@.creator == self.peer_id@,
                );
            }
            self.snapshot = Some(found);
        }
        match &self.snapshot {
            Some(items) => {
                if self.next < items.len() {
                    let item = items[self.next].duplicate();
                    self.next = self.next + 1;
                    Some(item)
                } else {
                    None
                }
            },
            None => None,
        }
    }
}

} // verus!

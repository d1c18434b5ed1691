//! The workflow that builds a new group chat: check whether the name is
//! already stored, persist the group, and subscribe to the topic —
//! persistence strictly before subscription.

use vstd::prelude::*;

use super::super::pubsub::Subscriber;
use super::Group;
use crate::storage::{
    lemma_filter_nonempty_iff_exists, matching, QueryPredicate, Storage, StorageError,
};

verus! {

/// Query matching stored groups by name.
struct GroupNameQuery(String);

impl QueryPredicate<Group> for GroupNameQuery {
    closed spec fn matches_spec(&self, other: &Group) -> bool {
        other@.name == self.0@
    }

    fn matches(&self, other: &Group) -> (decision: bool) {
        self.0 == other.name
    }
}

/// Whether some stored group already carries `name`.
pub open spec fn group_name_taken(items: Seq<Group>, name: Seq<char>) -> bool {
    exists|i: int| 0 <= i < items.len() && (#[trigger] items[i])@.name == name
}

/// Builds a new group chat against a record store and a subscriber
/// capability.
pub struct NewGroup<T: Storage<Item = Group>, S: Subscriber> {
    pub group_name: String,
    pub peer_id: String,
    pub storage: T,
    pub subscriber: S,
}

impl<T: Storage<Item = Group>, S: Subscriber> NewGroup<T, S> {
    /// Build a group from the held name and peer and persist it. On
    /// success exactly one group, carrying this name and creator and a
    /// non-nil id, is appended; on failure the store is unchanged. An
    /// infallible store forces success.
    pub fn save(&mut self) -> (result: Result<(), StorageError>)
        ensures
            old(self).storage.infallible() ==> result is Ok,
            final(self).storage.infallible() == old(self).storage.infallible(),
            result is Ok ==> exists|group: Group|
                #![auto]
                {
                    &&& final(self).storage.items() == old(self).storage.items().push(group)
                    &&& group@.name == old(self).group_name@
                    &&& group@.creator == old(self).peer_id@
                    &&& group.valid()
                },
            result is Err ==> final(self).storage.items() == old(self).storage.items(),
            final(self).group_name == old(self).group_name,
            final(self).peer_id == old(self).peer_id,
            final(self).subscriber == old(self).subscriber,
    {
        let group = Group::new(self.group_name.clone(), self.peer_id.clone());
        self.storage.save(group)
    }

    /// Whether a group with the held name has already been saved. The
    /// check is by name alone, whoever created the group.
    pub fn is_saved(&self) -> (taken: bool)
        ensures
            taken == group_name_taken(self.storage.items(), self.group_name@),
    {
        let query = GroupNameQuery(self.group_name.clone());
        let found = self.storage.find(query);
        proof {
            lemma_filter_nonempty_iff_exists(
                self.storage.items(),
                |item: Group| query.matches_spec(&item),
            );
        }
        found.len() > 0
    }

    /// Subscribe to the group's topic, persisting the group first when
    /// its name is not yet stored. If persisting fails, the subscriber
    /// is not called and the failure is surfaced; otherwise the answer
    /// is the subscriber's own. Success is owed whenever nothing can
    /// fail: when the name is already stored no store call is made at
    /// all, and an infallible store forces the persist to succeed.
    pub fn subscribe(&mut self) -> (result: Result<bool, StorageError>)
        ensures
            group_name_taken(old(self).storage.items(), old(self).group_name@) ==> result is Ok,
            old(self).storage.infallible() ==> result is Ok,
            final(self).storage.infallible() == old(self).storage.infallible(),
            result is Ok ==> {
                &&& final(self).subscriber.subscriptions() == old(
                    self,
                ).subscriber.subscriptions().push((old(self).peer_id@, old(self).group_name@))
                &&& final(self).subscriber.unsubscriptions() == old(
                    self,
                ).subscriber.unsubscriptions()
                &&& group_name_taken(final(self).storage.items(), old(self).group_name@)
            },
            result is Ok && group_name_taken(old(self).storage.items(), old(self).group_name@)
                ==> final(self).storage.items() == old(self).storage.items(),
            result is Ok && !group_name_taken(old(self).storage.items(), old(self).group_name@)
                ==> exists|group: Group|
                #![auto]
                {
                    &&& final(self).storage.items() == old(self).storage.items().push(group)
                    &&& group@.name == old(self).group_name@
                    &&& group@.creator == old(self).peer_id@
                    &&& group.valid()
                },
            result is Err ==> {
                &&& final(self).storage.items() == old(self).storage.items()
                &&& final(self).subscriber == old(self).subscriber
            },
            final(self).group_name == old(self).group_name,
            final(self).peer_id == old(self).peer_id,
    {
        if !self.is_saved() {
            match self.save() {
                Ok(()) => {
                    proof {
                        let items = self.storage.items();
                        assert(items[items.len() - 1]@.name == self.group_name@);
                    }
                },
                Err(error) => {
                    return Err(error);
                },
            }
        }
        let accepted = self.subscriber.subscribe(self.peer_id.as_str(), self.group_name.as_str());
        Ok(accepted)
    }

    /// Unsubscribe from this group's topic; the group stays stored. The
    /// answer is the subscriber's own.
    pub fn unsubscribe(&mut self) -> (was: bool)
        ensures
            final(self).subscriber.unsubscriptions() == old(
                self,
            ).subscriber.unsubscriptions().push((old(self).peer_id@, old(self).group_name@)),
            final(self).subscriber.subscriptions() == old(self).subscriber.subscriptions(),
            final(self).storage == old(self).storage,
            final(self).group_name == old(self).group_name,
            final(self).peer_id == old(self).peer_id,
    {
        self.subscriber.unsubscribe(self.peer_id.as_str(), self.group_name.as_str())
    }
}

} // verus!

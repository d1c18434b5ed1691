//! The workflow that sends a message: persist first, publish only on
//! success. Publication is fire-and-forget; its reliability belongs to
//! the network adapter.

use vstd::prelude::*;

use super::super::pubsub::Publisher;
use super::Message;
use crate::storage::{
    lemma_filter_nonempty_iff_exists, QueryPredicate, Storage, StorageError,
};

verus! {

/// Query matching stored messages by their id.
struct FindById(u128);

impl QueryPredicate<Message> for FindById {
    closed spec fn matches_spec(&self, other: &Message) -> bool {
        other@.id == self.0
    }

    fn matches(&self, other: &Message) -> (decision: bool) {
        self.0 == other.id
    }
}

/// Whether some stored message carries `id`.
pub open spec fn message_id_saved(items: Seq<Message>, id: u128) -> bool {
    exists|i: int| 0 <= i < items.len() && (#[trigger] items[i])@.id == id
}

/// Sends a pre-built message through a record store and a publisher
/// capability.
pub struct NewMessage<P: Publisher<Message>, M: Storage<Item = Message>> {
    pub publisher: P,
    pub storage: M,
    pub message: Message,
}

impl<P: Publisher<Message>, M: Storage<Item = Message>> NewMessage<P, M> {
    /// Whether the held message has been saved in the local storage.
    pub fn is_saved(&self) -> (saved: bool)
        ensures
            saved == message_id_saved(self.storage.items(), self.message@.id),
    {
        let query = FindById(self.message.id);
        let found = self.storage.find(query);
        proof {
            lemma_filter_nonempty_iff_exists(
                self.storage.items(),
                |item: Message| query.matches_spec(&item),
            );
        }
        found.len() > 0
    }

    /// Send the message: persist it, and exactly on success hand it to
    /// the publisher. On failure neither store nor stream changes. An
    /// infallible store forces success.
    pub fn send(&mut self) -> (result: Result<(), StorageError>)
        ensures
            old(self).storage.infallible() ==> result is Ok,
            final(self).storage.infallible() == old(self).storage.infallible(),
            result is Ok ==> {
                &&& final(self).storage.items() == old(self).storage.items().push(
                    old(self).message,
                )
                &&& final(self).publisher.published() == old(self).publisher.published().push(
                    old(self).message,
                )
                &&& message_id_saved(final(self).storage.items(), old(self).message@.id)
            },
            result is Err ==> {
                &&& final(self).storage.items() == old(self).storage.items()
                &&& final(self).publisher == old(self).publisher
            },
            final(self).message == old(self).message,
    {
        match self.storage.save(self.message.clone()) {
            Ok(()) => {
                self.publisher.publish(self.message.clone());
                proof {
                    let items = self.storage.items();
                    assert(items[items.len() - 1]@.id == self.message@.id);
                }
                Ok(())
            },
            Err(error) => Err(error),
        }
    }
}

} // verus!

//! A cursor over the records a predicate selects. The query runs once,
//! on the first step; the snapshot is kept and later steps walk it, so
//! the listing is unaffected by mutations after the first step.

use vstd::prelude::*;

use crate::storage::{matching, QueryPredicate, Record, Storage};

verus! {

/// A cursor over the records of `storage` accepted by `pred`.
#[verifier::reject_recursive_types(T)]
pub struct Listing<T, S: Storage<Item = T>, P: QueryPredicate<T>> {
    storage: S,
    pred: P,
    snapshot: Option<Vec<T>>,
    next: usize,
}

impl<T: Record, S: Storage<Item = T>, P: QueryPredicate<T> + Record> Listing<T, S, P> {
    /// The snapshot taken on the first step, if any step was taken.
    pub closed spec fn taken(&self) -> Option<Seq<T>> {
        match self.snapshot {
            Some(items) => Some(items@),
            None => None,
        }
    }

    /// How many records have been handed out.
    pub closed spec fn cursor(&self) -> int {
        self.next as int
    }

    /// The store the listing reads.
    pub closed spec fn store(&self) -> Seq<T> {
        self.storage.items()
    }

    /// The predicate the listing applies.
    pub closed spec fn query(&self) -> P {
        self.pred
    }

    /// A listing at its start; nothing has been read yet.
    pub fn new(storage: S, pred: P) -> (listing: Self)
        ensures
            listing.taken() is None,
            listing.cursor() == 0,
            listing.store() == storage.items(),
            listing.query() == pred,
    {
        Self { storage, pred, snapshot: None, next: 0 }
    }

    /// The next matching record. The first step snapshots the query
    /// result; every step hands out the record at the cursor, in
    /// insertion order, until the snapshot is exhausted.
    pub fn next(&mut self) -> (item: Option<T>)
        ensures
            ({
                let snap = match old(self).taken() {
                    None => matching(old(self).store(), old(self).query()),
                    Some(items) => items,
                };
                &&& final(self).taken() == Some(snap)
                &&& item == (if old(self).cursor() < snap.len() {
                    Some(snap[old(self).cursor()])
                } else {
                    None::<T>
                })
                &&& final(self).cursor() == old(self).cursor() + (
                if old(self).cursor() < snap.len() {
                    1int
                } else {
                    0int
                })
                &&& final(self).store() == old(self).store()
                &&& final(self).query() == old(self).query()
            }),
    {
        if self.snapshot.is_none() {
            let found = self.storage.find(self.pred.duplicate());
            self.snapshot = Some(found);
        }
        match &self.snapshot {
            Some(items) => {
                if self.next < items.len() {
                    let item = items[self.next].duplicate();
                    self.next = self.next + 1;
                    Some(item)
                } else {
                    None
                }
            },
            None => None,
        }
    }
}

} // verus!

//! In-memory reference implementation of the record store, backed by an
//! ordered vector. It never fails.

use vstd::prelude::*;

use super::{lemma_filter_push, matching, remaining, QueryPredicate, Record, Storage, StorageError};

verus! {

/// Memory storage over a generic record type `T`.
pub struct MemoryStorage<T> {
    items: Vec<T>,
}

impl<T> MemoryStorage<T> {
    /// Create a new, empty memory storage.
    pub fn new() -> (storage: Self)
        ensures
            storage@ == Seq::<T>::empty(),
    {
        Self { items: Vec::new() }
    }
}

impl<T> View for MemoryStorage<T> {
    type V = Seq<T>;

    closed spec fn view(&self) -> Seq<T> {
        self.items@
    }
}

impl<T: Record> Storage for MemoryStorage<T> {
    type Item = T;

    open spec fn items(&self) -> Seq<T> {
        self.view()
    }

    /// The in-memory store never fails.
    open spec fn infallible(&self) -> bool {
        true
    }

    fn save(&mut self, item: T) -> (result: Result<(), StorageError>)
        ensures
            result is Ok,
    {
        self.items.push(item);
        Ok(())
    }

    fn list(&self) -> (records: Vec<T>)
    {
        let mut records: Vec<T> = Vec::new();
        let mut i: usize = 0;
        while i < self.items.len()
            invariant
                i <= self.items@.len(),
                records@ == self.items@.subrange(0, i as int),
            decreases self.items@.len() - i,
        {
            records.push(self.items[i].duplicate());
            i = i + 1;
            assert(self.items@.subrange(0, i as int) =~= self.items@.subrange(
                0,
                i - 1,
            ).push(self.items@[i - 1]));
        }
        assert(records@ =~= self.items@);
        records
    }

    fn remove_all(&mut self) -> (result: Result<usize, StorageError>)
        ensures
            result is Ok,
    {
        let removed = self.items.len();
        self.items.clear();
        Ok(removed)
    }

    fn find<Q: QueryPredicate<T>>(&self, query: Q) -> (found: Vec<T>)
    {
        let mut found: Vec<T> = Vec::new();
        let mut i: usize = 0;
        while i < self.items.len()
            invariant
                i <= self.items@.len(),
                found@ == matching(self.items@.subrange(0, i as int), query),
            decreases self.items@.len() - i,
        {
            if query.matches(&self.items[i]) {
                found.push(self.items[i].duplicate());
            }
            i = i + 1;
            proof {
                assert(self.items@.subrange(0, i as int) =~= self.items@.subrange(
                    0,
                    i - 1,
                ).push(self.items@[i - 1]));
                lemma_filter_push(
                    self.items@.subrange(0, i - 1),
                    |item: T| query.matches_spec(&item),
                    self.items@[i - 1],
                );
            }
        }
        assert(self.items@.subrange(0, self.items@.len() as int) =~= self.items@);
        found
    }

    fn remove_if<Q: QueryPredicate<T>>(&mut self, query: Q) -> (result: Result<
        usize,
        StorageError,
    >)
        ensures
            result is Ok,
    {
        let mut kept: Vec<T> = Vec::new();
        let mut i: usize = 0;
        while i < self.items.len()
            invariant
                i <= self.items@.len(),
                kept@ == remaining(self.items@.subrange(0, i as int), query),
            decreases self.items@.len() - i,
        {
            if !query.matches(&self.items[i]) {
                kept.push(self.items[i].duplicate());
            }
            i = i + 1;
            proof {
                assert(self.items@.subrange(0, i as int) =~= self.items@.subrange(
                    0,
                    i - 1,
                ).push(self.items@[i - 1]));
                lemma_filter_push(
                    self.items@.subrange(0, i - 1),
                    |item: T| !query.matches_spec(&item),
                    self.items@[i - 1],
                );
            }
        }
        proof {
            assert(self.items@.subrange(0, self.items@.len() as int) =~= self.items@);
            broadcast use vstd::seq_lib::group_filter_ensures;

            assert(kept@.len() <= self.items@.len());
        }
        let removed = self.items.len() - kept.len();
        self.items = kept;
        Ok(removed)
    }
}

/// A store with no backing: it holds nothing and refuses every
/// mutation. It exercises callers' storage-failure paths, which the
/// in-memory store never takes.
pub struct FailingStorage<T> {
    marker: core::marker::PhantomData<T>,
}

impl<T> FailingStorage<T> {
    /// A store that refuses everything.
    pub fn new() -> (storage: Self)
        ensures
            storage@ == Seq::<T>::empty(),
    {
        Self { marker: core::marker::PhantomData }
    }
}

impl<T> View for FailingStorage<T> {
    type V = Seq<T>;

    closed spec fn view(&self) -> Seq<T> {
        Seq::empty()
    }
}

impl<T: Record> Storage for FailingStorage<T> {
    type Item = T;

    open spec fn items(&self) -> Seq<T> {
        self.view()
    }

    /// This store refuses every mutation.
    open spec fn infallible(&self) -> bool {
        false
    }

    fn save(&mut self, item: T) -> (result: Result<(), StorageError>)
        ensures
            result is Err,
    {
        Err(StorageError::Backend)
    }

    fn list(&self) -> (records: Vec<T>)
    {
        Vec::new()
    }

    fn remove_all(&mut self) -> (result: Result<usize, StorageError>)
        ensures
            result is Err,
    {
        Err(StorageError::Backend)
    }

    fn find<Q: QueryPredicate<T>>(&self, query: Q) -> (found: Vec<T>)
    {
        proof {
            reveal(Seq::filter);
        }
        Vec::new()
    }

    fn remove_if<Q: QueryPredicate<T>>(&mut self, query: Q) -> (result: Result<
        usize,
        StorageError,
    >)
        ensures
            result is Err,
    {
        Err(StorageError::Backend)
    }
}

} // verus!

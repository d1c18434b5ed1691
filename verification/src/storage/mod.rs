//! Storage abstraction: a typed record store that can save records,
//! list them in insertion order, and query or remove them through a
//! caller-supplied predicate.

use vstd::prelude::*;

pub mod memory_storage;

verus! {

/// Failure reported by a store operation. The in-memory store never
/// fails; other backends may.
#[derive(Clone, Copy, Debug, PartialEq, Eq, Structural)]
pub enum StorageError {
    /// The backing store could not complete the operation.
    Backend,
}

/// A record that can be duplicated without loss: the copy is equal,
/// field for field, to the original. Stores hand out such copies from
/// their queries, so every stored type must provide one.
pub trait Record: Sized {
    fn duplicate(&self) -> (copy: Self)
        ensures
            copy == *self,
    ;
}

impl Record for u32 {
    fn duplicate(&self) -> (copy: Self)
        ensures
            copy == *self,
    {
        *self
    }
}

impl Record for u64 {
    fn duplicate(&self) -> (copy: Self)
        ensures
            copy == *self,
    {
        *self
    }
}

/// A value that decides membership for a store query. Implementations
/// must be pure: the decision is a function of the predicate and the
/// record alone, stated by `matches_spec`.
pub trait QueryPredicate<T>: Sized {
    /// What this predicate accepts.
    spec fn matches_spec(&self, other: &T) -> bool;

    fn matches(&self, other: &T) -> (decision: bool)
        ensures
            decision == self.matches_spec(other),
    ;
}

/// The records of `items` accepted by `query`, in their original order.
pub open spec fn matching<T, Q: QueryPredicate<T>>(items: Seq<T>, query: Q) -> Seq<T> {
    items.filter(|item: T| query.matches_spec(&item))
}

/// The records of `items` rejected by `query`, in their original order.
pub open spec fn remaining<T, Q: QueryPredicate<T>>(items: Seq<T>, query: Q) -> Seq<T> {
    items.filter(|item: T| !query.matches_spec(&item))
}

/// A record store. `items` is the mathematical content of the store:
/// the stored records in insertion order.
pub trait Storage: Sized {
    type Item;

    /// The stored records, oldest first.
    spec fn items(&self) -> Seq<Self::Item>;

    /// Whether this store promises that every mutation succeeds. The
    /// in-memory reference store does; other backends may not. The
    /// promise is a property of the store and survives every call.
    spec fn infallible(&self) -> bool;

    /// Append a record. On success it becomes the last record; on
    /// failure the store is unchanged. An infallible store succeeds.
    fn save(&mut self, item: Self::Item) -> (result: Result<(), StorageError>)
        ensures
            result is Ok ==> final(self).items() == old(self).items().push(item),
            result is Err ==> final(self).items() == old(self).items(),
            old(self).infallible() ==> result is Ok,
            final(self).infallible() == old(self).infallible(),
    ;

    /// A snapshot of every record, in insertion order, independent of
    /// later mutations.
    fn list(&self) -> (records: Vec<Self::Item>)
        ensures
            records@ == self.items(),
    ;

    /// Remove every record; report how many were removed. An
    /// infallible store succeeds.
    fn remove_all(&mut self) -> (result: Result<usize, StorageError>)
        ensures
            result is Ok ==> final(self).items() == Seq::<Self::Item>::empty()
                && result->Ok_0 as nat == old(self).items().len(),
            result is Err ==> final(self).items() == old(self).items(),
            old(self).infallible() ==> result is Ok,
            final(self).infallible() == old(self).infallible(),
    ;

    /// A snapshot of the records accepted by `query`, in insertion order.
    fn find<Q: QueryPredicate<Self::Item>>(&self, query: Q) -> (found: Vec<Self::Item>)
        ensures
            found@ == matching(self.items(), query),
    ;

    /// Remove the records accepted by `query`, keeping exactly the rest;
    /// report how many were removed. On failure the store is unchanged.
    /// An infallible store succeeds.
    fn remove_if<Q: QueryPredicate<Self::Item>>(&mut self, query: Q) -> (result: Result<
        usize,
        StorageError,
    >)
        ensures
            result is Ok ==> {
                &&& final(self).items() == remaining(old(self).items(), query)
                &&& result->Ok_0 as nat + final(self).items().len() == old(self).items().len()
                &&& forall|i: int|
                    0 <= i < final(self).items().len() ==> !query.matches_spec(
                        &final(self).items()[i],
                    )
            },
            result is Err ==> final(self).items() == old(self).items(),
            old(self).infallible() ==> result is Ok,
            final(self).infallible() == old(self).infallible(),
    ;

    /// The first record accepted by `query`, or none.
    fn find_one<Q: QueryPredicate<Self::Item>>(&self, query: Q) -> (found: Option<Self::Item>)
        ensures
            match found {
                Some(item) => matching(self.items(), query).len() > 0 && item == matching(
                    self.items(),
                    query,
                )[0],
                None => matching(self.items(), query).len() == 0,
            },
    {
        let mut found_items = self.find(query);
        if found_items.len() > 0 {
            Some(found_items.remove(0))
        } else {
            None
        }
    }
}

/// Filtering distributes over appending one element at the back.
pub proof fn lemma_filter_push<A>(s: Seq<A>, pred: spec_fn(A) -> bool, x: A)
    ensures
        s.push(x).filter(pred) == if pred(x) {
            s.filter(pred).push(x)
        } else {
            s.filter(pred)
        },
{
    reveal(Seq::filter);
    assert(s.push(x).drop_last() =~= s);
    assert(s.push(x).last() == x);
}

/// Predicates that agree on every element of a sequence filter it to
/// the same result.
pub proof fn lemma_filter_congruent<A>(s: Seq<A>, p: spec_fn(A) -> bool, q: spec_fn(A) -> bool)
    requires
        forall|i: int| 0 <= i < s.len() ==> (p(#[trigger] s[i]) <==> q(s[i])),
    ensures
        s.filter(p) == s.filter(q),
    decreases s.len(),
{
    reveal(Seq::filter);
    if s.len() > 0 {
        let rest = s.drop_last();
        assert forall|i: int| 0 <= i < rest.len() implies (p(#[trigger] rest[i]) <==> q(
            rest[i],
        )) by {
            assert(rest[i] == s[i]);
        }
        lemma_filter_congruent(rest, p, q);
        assert(p(s.last()) <==> q(s.last())) by {
            assert(s.last() == s[s.len() - 1]);
        }
    }
}

/// A filtered sequence is non-empty exactly when some element of the
/// original satisfies the predicate.
pub proof fn lemma_filter_nonempty_iff_exists<A>(s: Seq<A>, pred: spec_fn(A) -> bool)
    ensures
        s.filter(pred).len() > 0 <==> exists|i: int| 0 <= i < s.len() && pred(s[i]),
    decreases s.len(),
{
    reveal(Seq::filter);
    if s.len() > 0 {
        let rest = s.drop_last();
        lemma_filter_nonempty_iff_exists(rest, pred);
        if pred(s.last()) {
            assert(pred(s[s.len() - 1]));
        } else {
            if s.filter(pred).len() > 0 {
                let i = choose|i: int| 0 <= i < rest.len() && pred(rest[i]);
                assert(pred(s[i]));
            }
            if exists|i: int| 0 <= i < s.len() && pred(s[i]) {
                let i = choose|i: int| 0 <= i < s.len() && pred(s[i]);
                assert(i < s.len() - 1);
                assert(pred(rest[i]));
            }
        }
    }
}

} // verus!

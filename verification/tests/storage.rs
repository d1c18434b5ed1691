//! Tests for the in-memory record store.

use peer_chat::storage::{QueryPredicate, Storage};
use peer_chat::MemoryStorage;

struct FindNum(u32);

impl QueryPredicate<u32> for FindNum {
    fn matches_spec(&self, other: &u32) -> bool {
        &self.0 == other
    }

    fn matches(&self, other: &u32) -> bool {
        &self.0 == other
    }
}

fn setup() -> MemoryStorage<u32> {
    let mut storage: MemoryStorage<u32> = MemoryStorage::new();
    storage.save(2).expect("Can save a value");
    storage.save(3).expect("Can save a value");
    storage.save(56).expect("Can save a value");
    storage.save(33).expect("Can save a value");
    storage.save(22).expect("Can save a value");
    storage.save(384).expect("Can save a value");
    storage.save(384).expect("Can save a value");
    storage.save(384).expect("Can save a value");
    storage
}

#[test]
fn can_save() {
    let mut storage: MemoryStorage<u32> = MemoryStorage::new();
    storage.save(2).expect("Can save a value");
    storage.save(3).expect("Can save a value");
    assert_eq!(storage.list().len(), 2);
}

#[test]
fn can_list() {
    let mut storage: MemoryStorage<u32> = MemoryStorage::new();
    storage.save(2).expect("Can save a value");
    storage.save(3).expect("Can save a value");
    assert_eq!(storage.list(), vec![2, 3]);
}

#[test]
fn can_find_num() {
    let values = setup();
    let num_56 = FindNum(56);
    let found = values.find(num_56);
    assert!(!found.is_empty());
    let other_num = FindNum(1223);
    let f = values.find(other_num);
    assert!(f.is_empty());
}

#[test]
fn can_delete() {
    let mut values = setup();
    assert_eq!(values.list().len(), values.remove_all().unwrap());
}

#[test]
fn can_conditionally_remove() {
    let mut values = setup();
    let val = FindNum(384);
    let res = values.remove_if(val).expect("can remove conditionally");
    assert_eq!(res, 3);
}

#[test]
fn can_find_one() {
    let values = setup();
    let query = FindNum(3);
    assert_eq!(values.find_one(query), Some(3));
}

#[test]
fn predicate_remove_keeps_the_rest() {
    let mut values = setup();
    let removed = values.remove_if(FindNum(384)).unwrap();
    assert_eq!(removed, 3);
    assert_eq!(values.list(), vec![2, 3, 56, 33, 22]);
}

#[test]
fn find_preserves_order() {
    let values = setup();
    let found = values.find(FindNum(384));
    assert_eq!(found, vec![384, 384, 384]);
    assert_eq!(
        values.list().into_iter().filter(|x| *x == 384).collect::<Vec<u32>>(),
        found
    );
}

#[test]
fn remove_all_empties_the_store() {
    let mut values = setup();
    let removed = values.remove_all().unwrap();
    assert_eq!(removed, 8);
    assert!(values.list().is_empty());
}

#[test]
fn find_one_on_empty_store() {
    let storage: MemoryStorage<u32> = MemoryStorage::new();
    assert_eq!(storage.find_one(FindNum(1)), None);
}

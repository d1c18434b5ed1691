//! Tests for the listing cursors.

use peer_chat::messaging::groups::list_groups::ListGroups;
use peer_chat::messaging::groups::Group;
use peer_chat::messaging::listing::Listing;
use peer_chat::storage::{QueryPredicate, Record, Storage};
use peer_chat::MemoryStorage;

#[derive(Debug, Clone, PartialEq)]
struct StubItem(String, u32);

impl Record for StubItem {
    fn duplicate(&self) -> Self {
        self.clone()
    }
}

fn setup() -> MemoryStorage<StubItem> {
    let mut storage: MemoryStorage<StubItem> = MemoryStorage::new();
    storage.save(StubItem("001".to_string(), 10)).expect("can add");
    storage.save(StubItem("001".to_string(), 10)).expect("can add");
    storage.save(StubItem("001".to_string(), 19)).expect("can add");
    storage.save(StubItem("001".to_string(), 16)).expect("can add");
    storage.save(StubItem("002".to_string(), 12)).expect("can add");
    storage.save(StubItem("003".to_string(), 13)).expect("can add");
    storage.save(StubItem("004".to_string(), 14)).expect("can add");
    storage
}

#[derive(Clone)]
struct FindById(String);

impl QueryPredicate<StubItem> for FindById {
    fn matches_spec(&self, other: &StubItem) -> bool {
        self.0 == other.0
    }

    fn matches(&self, other: &StubItem) -> bool {
        self.0 == other.0
    }
}

impl Record for FindById {
    fn duplicate(&self) -> Self {
        self.clone()
    }
}

#[test]
fn listing() {
    let storage = setup();
    let peer_id = "001".to_string();
    let pred = FindById(peer_id);
    let mut list = Listing::new(storage, pred);
    list.next();
    list.next();
    let val = list.next().expect("can find third item");
    assert_eq!(val, StubItem("001".to_string(), 19));
}

#[test]
fn listing_ends_after_the_matches() {
    let storage = setup();
    let mut list = Listing::new(storage, FindById("002".to_string()));
    assert_eq!(list.next(), Some(StubItem("002".to_string(), 12)));
    assert_eq!(list.next(), None);
    assert_eq!(list.next(), None);
}

#[test]
fn list_groups_walks_one_creator() {
    let mut storage: MemoryStorage<Group> = MemoryStorage::new();
    storage.save(Group::new("chat001".to_string(), "pA".to_string())).unwrap();
    storage.save(Group::new("chat002".to_string(), "pB".to_string())).unwrap();
    storage.save(Group::new("chat003".to_string(), "pA".to_string())).unwrap();
    let mut list = ListGroups::new("pA".to_string(), storage);
    let first = list.next().expect("first group of pA");
    assert_eq!(first.name().as_str(), "chat001");
    assert_eq!(first.peer_id(), "pA".to_string());
    let second = list.next().expect("second group of pA");
    assert_eq!(second.name().as_str(), "chat003");
    assert!(list.next().is_none());
}

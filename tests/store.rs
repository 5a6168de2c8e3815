use firestore_client::memory_store::InMemoryStore;
use firestore_client::model::{Check, CheckList, Item};

#[test]
fn example_store_holds_two_of_each() {
    let store = InMemoryStore::example();
    assert_eq!(
        store.find_all_check_lists(),
        vec![
            CheckList { id: "1".to_owned(), date: "2020-01-02".to_owned() },
            CheckList { id: "2".to_owned(), date: "2020-01-03".to_owned() },
        ]
    );
    assert_eq!(
        store.find_all_items(),
        vec![
            Item { id: "1".to_owned(), name: "item1".to_owned() },
            Item { id: "2".to_owned(), name: "item2".to_owned() },
        ]
    );
    assert_eq!(store.find_all_checks().len(), 2);
}

#[test]
fn checks_are_filtered_by_list_and_item() {
    let check = |l: &str, i: &str| Check { check_list_id: l.to_owned(), item_id: i.to_owned() };
    let store = InMemoryStore::new(
        vec![],
        vec![check("1", "a"), check("2", "a"), check("1", "b")],
        vec![],
    );
    assert_eq!(
        store.find_checks_by_check_list_id("1".to_owned()),
        vec![check("1", "a"), check("1", "b")]
    );
    assert_eq!(
        store.find_checks_by_item_id("a".to_owned()),
        vec![check("1", "a"), check("2", "a")]
    );
    assert!(store.find_checks_by_item_id("z".to_owned()).is_empty());
}

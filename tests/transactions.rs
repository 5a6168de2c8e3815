use firestore_client::client::{
    classify_status, create_target, guarded_target, list_target, next_page_token,
    rollback_failure, settle, Client, Operation, Precondition, Settlement, StatusClass,
    Transaction, TransactionError, PAGE_SIZE,
};
use firestore_client::document::{Document, DocumentError, Timestamp};
use firestore_client::{CollectionName, DatabaseId, DatabaseName, DocumentName, Error, ProjectId};

fn demo_database() -> DatabaseName {
    DatabaseName::new(
        ProjectId::from_str("demo-project1").unwrap(),
        DatabaseId::from_str("(default)").unwrap(),
    )
}

fn doc_name(s: &str) -> DocumentName {
    DocumentName::from_str(s).unwrap()
}

#[test]
fn client_resolves_collections_against_its_root() {
    let client = Client::new(demo_database());
    let collection_name = client.collection("repositories").unwrap();
    assert_eq!(
        collection_name.to_string(),
        "projects/demo-project1/databases/(default)/documents/repositories"
    );
    assert_eq!(
        collection_name.doc("1").unwrap().to_string(),
        "projects/demo-project1/databases/(default)/documents/repositories/1"
    );
    assert_eq!(client.collection("a/b").unwrap_err(), Error::SegmentCount);
    assert_eq!(
        client.database(),
        "projects/demo-project1/databases/(default)/documents"
    );
}

#[test]
fn create_target_splits_the_name() {
    let top = doc_name("projects/demo-project1/databases/(default)/documents/users/1");
    let t = create_target(&top);
    assert_eq!(t.parent, "projects/demo-project1/databases/(default)/documents");
    assert_eq!(t.collection_id, "users");
    assert_eq!(t.document_id, "1");

    let nested = doc_name("projects/demo-project1/databases/(default)/documents/users/1/repos/2");
    let t = create_target(&nested);
    assert_eq!(t.parent, "projects/demo-project1/databases/(default)/documents/users/1");
    assert_eq!(t.collection_id, "repos");
    assert_eq!(t.document_id, "2");
}

#[test]
fn list_target_splits_the_name() {
    let top = CollectionName::from_str("projects/demo-project1/databases/(default)/documents/users")
        .unwrap();
    let t = list_target(&top);
    assert_eq!(t.parent, "projects/demo-project1/databases/(default)/documents");
    assert_eq!(t.collection_id, "users");
    assert_eq!(t.page_size, 100);
    assert_eq!(PAGE_SIZE, 100);

    let nested = CollectionName::from_str(
        "projects/demo-project1/databases/(default)/documents/users/1/repos",
    )
    .unwrap();
    let t = list_target(&nested);
    assert_eq!(t.parent, "projects/demo-project1/databases/(default)/documents/users/1");
    assert_eq!(t.collection_id, "repos");
}

#[test]
fn empty_page_token_means_last_page() {
    assert_eq!(next_page_token(String::new()), None);
    assert_eq!(next_page_token("abc".to_string()), Some("abc".to_string()));
}

#[test]
fn transaction_buffers_writes_in_order() {
    let client = Client::new(demo_database());
    let mut tx: Transaction<u32> = client.begin_transaction(vec![1, 2, 3]);
    assert!(tx.writes().is_empty());
    let a = doc_name("projects/demo-project1/databases/(default)/documents/transactions/a");
    let b = doc_name("projects/demo-project1/databases/(default)/documents/transactions/b");
    let t = Timestamp::new(10, 5);
    tx.create(&a, 7);
    tx.delete(&b, t);
    assert_eq!(tx.token(), &vec![1, 2, 3]);
    assert_eq!(tx.writes().len(), 2);
    match &tx.writes()[0].operation {
        Operation::Update { name, fields } => {
            assert_eq!(
                name,
                "projects/demo-project1/databases/(default)/documents/transactions/a"
            );
            assert_eq!(*fields, 7);
        }
        Operation::Delete { .. } => panic!("expected an update"),
    }
    assert_eq!(tx.writes()[0].precondition, Precondition::Exists(false));
    match &tx.writes()[1].operation {
        Operation::Delete { name } => assert_eq!(
            name,
            "projects/demo-project1/databases/(default)/documents/transactions/b"
        ),
        Operation::Update { .. } => panic!("expected a delete"),
    }
    assert_eq!(tx.writes()[1].precondition, Precondition::UpdateTime(t));

    let commit = tx.commit();
    assert_eq!(commit.database, "projects/demo-project1/databases/(default)/documents");
    assert_eq!(commit.transaction, vec![1, 2, 3]);
    assert_eq!(commit.writes.len(), 2);
}

#[test]
fn successful_work_commits() {
    let client = Client::new(demo_database());
    let mut tx: Transaction<u32> = client.begin_transaction(vec![9]);
    tx.create(
        &doc_name("projects/demo-project1/databases/(default)/documents/transactions/1"),
        1,
    );
    match settle::<u32, String>(tx, Ok(())) {
        Settlement::Commit(c) => {
            assert_eq!(c.transaction, vec![9]);
            assert_eq!(c.writes.len(), 1);
        }
        Settlement::Rollback(..) => panic!("expected a commit"),
    }
}

#[test]
fn failed_work_rolls_back() {
    let client = Client::new(demo_database());
    let mut tx: Transaction<u32> = client.begin_transaction(vec![4, 2]);
    tx.delete(
        &doc_name("projects/demo-project1/databases/(default)/documents/transactions/1"),
        Timestamp::new(1, 0),
    );
    match settle::<u32, String>(tx, Err("boom".to_string())) {
        Settlement::Rollback(r, e) => {
            assert_eq!(r.transaction, vec![4, 2]);
            assert_eq!(r.database, "projects/demo-project1/databases/(default)/documents");
            assert_eq!(e, "boom");
        }
        Settlement::Commit(_) => panic!("expected a rollback"),
    }
}

#[test]
fn rollback_failure_keeps_both_errors() {
    match rollback_failure::<String, &str>("work", Ok(())) {
        TransactionError::Callback(e) => assert_eq!(e, "work"),
        TransactionError::Rollback(..) => panic!("rollback succeeded"),
    }
    match rollback_failure::<String, &str>("work", Err("rpc".to_string())) {
        TransactionError::Rollback(s, e) => {
            assert_eq!(s, "rpc");
            assert_eq!(e, "work");
        }
        TransactionError::Callback(_) => panic!("rollback failed"),
    }
}

#[test]
fn document_requires_both_times_and_a_name() {
    let name = "projects/demo-project1/databases/(default)/documents/repositories/1";
    let t1 = Timestamp::new(1, 2);
    let t2 = Timestamp::new(3, 4);
    let d = Document::new(Some(t1), Ok::<String, ()>("v1".to_string()), name, Some(t2)).unwrap();
    assert_eq!(d.create_time(), t1);
    assert_eq!(d.update_time(), t2);
    assert_eq!(d.name().to_string(), name);
    assert_eq!(d.data(), "v1");

    assert_eq!(
        Document::new(None, Ok::<u8, ()>(0), name, Some(t2)).unwrap_err(),
        DocumentError::CreateTimeIsNone
    );
    assert_eq!(
        Document::new(Some(t1), Ok::<u8, ()>(0), name, None).unwrap_err(),
        DocumentError::UpdateTimeIsNone
    );
    assert_eq!(
        Document::new(Some(t1), Ok::<u8, ()>(0), "projects/p/databases/d", Some(t2)).unwrap_err(),
        DocumentError::InvalidName(Error::SegmentCount)
    );
    assert_eq!(
        Document::new(None, Err::<u8, &str>("bad fields"), "bad", None).unwrap_err(),
        DocumentError::CreateTimeIsNone
    );
    assert_eq!(
        Document::new(Some(t1), Err::<u8, &str>("bad fields"), "bad", None).unwrap_err(),
        DocumentError::Deserialize("bad fields")
    );
}

#[test]
fn updates_and_deletes_are_guarded_by_update_time() {
    let name = doc_name("projects/demo-project1/databases/(default)/documents/users/1");
    let t = Timestamp::new(42, 7);
    let g = guarded_target(&name, t);
    assert_eq!(g.name, "projects/demo-project1/databases/(default)/documents/users/1");
    assert_eq!(g.precondition, Precondition::UpdateTime(t));
}

#[test]
fn empty_document_id_is_left_for_the_store_to_choose() {
    let name = doc_name("projects/demo-project1/databases/(default)/documents/users/");
    let t = create_target(&name);
    assert_eq!(t.parent, "projects/demo-project1/databases/(default)/documents");
    assert_eq!(t.collection_id, "users");
    assert_eq!(t.document_id, "");
}

#[test]
fn statuses_are_sorted_into_classes() {
    assert_eq!(classify_status(5), StatusClass::NotFound);
    assert_eq!(classify_status(6), StatusClass::Conflict);
    assert_eq!(classify_status(9), StatusClass::Conflict);
    assert_eq!(classify_status(10), StatusClass::Conflict);
    assert_eq!(classify_status(14), StatusClass::Other);
    assert_eq!(classify_status(0), StatusClass::Other);
}

use firestore_client::{
    CollectionId, CollectionName, CollectionPath, DatabaseId, DatabaseName, DocumentId,
    DocumentName, DocumentPath, Error, ProjectId,
};

fn build_database_name() -> DatabaseName {
    let project_id = ProjectId::from_str("my-project").unwrap();
    let database_id = DatabaseId::from_str("my-database").unwrap();
    DatabaseName::new(project_id, database_id)
}

#[test]
fn collection_name_test() {
    let s = "projects/my-project/databases/my-database/documents/chatrooms";
    let collection_path = CollectionName::from_str(s).unwrap();
    assert_eq!(collection_path.to_string(), s);

    let s = "projects/my-project/databases/my-database/documents/chatrooms/chatroom1/messages";
    let collection_path = CollectionName::from_str(s).unwrap();
    assert_eq!(collection_path.to_string(), s);
}

#[test]
fn collection_name_test_impl_from_str() {
    assert!(
        CollectionName::from_str("projects/my-project/databases/my-database/documents").is_err()
    );
    assert!(
        CollectionName::from_str("projects/my-project/databases/my-database/documents/c").is_ok()
    );
    assert!(CollectionName::from_str(
        "projects/my-project/databases/my-database/documents/c/d"
    )
    .is_err());
    assert!(CollectionName::from_str(
        "projects/my-project/databases/my-database/documents/c/d/c"
    )
    .is_ok());

    let b = "projects/my-project/databases/my-database/documents";
    let c1 = "x".repeat(1500);
    let d1 = "x".repeat(1500);
    let c2 = "y".repeat(1500);
    let d2 = "y".repeat(1500);
    let c3_ok = "z".repeat(88);
    let c3_err = "z".repeat(88 + 1);
    let s = format!("{}/{}/{}/{}/{}/{}", b, c1, d1, c2, d2, c3_ok);
    assert_eq!(s.len(), 6_144);
    assert!(CollectionName::from_str(&s).is_ok());
    let s = format!("{}/{}/{}/{}/{}/{}", b, c1, d1, c2, d2, c3_err);
    assert_eq!(s.len(), 6_145);
    assert!(CollectionName::from_str(&s).is_err());
}

#[test]
fn collection_name_test_new() {
    let database_name = build_database_name();
    let collection_id = CollectionId::from_str("chatrooms").unwrap();
    let collection_path = CollectionPath::new(None, collection_id);
    let collection_name = CollectionName::new(database_name.clone(), collection_path.clone());
    assert_eq!(
        collection_name.to_string(),
        format!("{}/{}", database_name.to_string(), collection_path.to_string())
    );
}

#[test]
fn database_name_test() {
    let s = "projects/my-project/databases/my-database/documents";
    let database_name = DatabaseName::from_str(s).unwrap();
    assert_eq!(database_name.to_string(), s);
}

#[test]
fn database_name_test_impl_from_str() {
    let s = "projects/my-project/databases/my-database/documents";
    let database_name = DatabaseName::from_str(s).unwrap();
    assert_eq!(database_name.to_string(), s);

    assert!(DatabaseName::from_str(&"x".repeat(1024 * 6 + 1)).is_err());
    assert!(DatabaseName::from_str("p/my-project/databases/my-database/documents").is_err());
    assert!(DatabaseName::from_str("projects/my-project/d/my-database/documents").is_err());
    assert!(DatabaseName::from_str("projects/my-project/databases/my-database/d").is_err());
    assert!(DatabaseName::from_str("projects/P/databases/my-database/d").is_err());
    assert!(DatabaseName::from_str("projects/my-project/databases/D/d").is_err());
}

#[test]
fn database_name_test_new() {
    let project_id = ProjectId::from_str("my-project").unwrap();
    let database_id = DatabaseId::from_str("my-database").unwrap();
    let database_name = DatabaseName::new(project_id.clone(), database_id.clone());
    assert_eq!(
        database_name.to_string(),
        format!(
            "projects/{}/databases/{}/documents",
            project_id.to_string(),
            database_id.to_string()
        )
    );
}

#[test]
fn document_name_test() {
    let s = "projects/my-project/databases/my-database/documents/chatrooms/chatroom1";
    let document_name = DocumentName::from_str(s).unwrap();
    assert_eq!(document_name.to_string(), s);
}

#[test]
fn document_name_test_collection() {
    let document_name = DocumentName::from_str(
        "projects/my-project/databases/my-database/documents/chatrooms/chatroom1",
    )
    .unwrap();
    let collection_name = document_name.collection("messages").unwrap();
    assert_eq!(
        collection_name,
        CollectionName::from_str(
            "projects/my-project/databases/my-database/documents/chatrooms/chatroom1/messages"
        )
        .unwrap()
    );

    let document_name = DocumentName::from_str(
        "projects/my-project/databases/my-database/documents/chatrooms/chatroom1/messages/message1",
    )
    .unwrap();
    let collection_name = document_name.collection("col").unwrap();
    assert_eq!(
        collection_name,
        CollectionName::from_str(
            "projects/my-project/databases/my-database/documents/chatrooms/chatroom1/messages/message1/col"
        )
        .unwrap()
    );
}

#[test]
fn document_name_test_impl_from_str() {
    assert!(
        DocumentName::from_str("projects/my-project/databases/my-database/documents").is_err()
    );
    assert!(
        DocumentName::from_str("projects/my-project/databases/my-database/documents/c").is_err()
    );
    assert!(
        DocumentName::from_str("projects/my-project/databases/my-database/documents/c/d").is_ok()
    );
    assert!(DocumentName::from_str(
        "projects/my-project/databases/my-database/documents/c/d/c"
    )
    .is_err());
    assert!(DocumentName::from_str(
        "projects/my-project/databases/my-database/documents/c/d/c/d"
    )
    .is_ok());

    let b = "projects/my-project/databases/my-database/documents";
    let c1 = "x".repeat(1500);
    let d1 = "x".repeat(1500);
    let c2 = "y".repeat(1500);
    let d2 = "y".repeat(1500);
    let c3 = "z".repeat(80);
    let d3_ok = "z".repeat(7);
    let d3_err = "z".repeat(7 + 1);
    let s = format!("{}/{}/{}/{}/{}/{}/{}", b, c1, d1, c2, d2, c3, d3_ok);
    assert_eq!(s.len(), 6_144);
    assert!(DocumentName::from_str(&s).is_ok());
    let s = format!("{}/{}/{}/{}/{}/{}/{}", b, c1, d1, c2, d2, c3, d3_err);
    assert_eq!(s.len(), 6_145);
    assert!(DocumentName::from_str(&s).is_err());
}

#[test]
fn document_name_test_new() {
    let database_name = build_database_name();
    let collection_path = CollectionPath::from_str("chatrooms").unwrap();
    let document_id = DocumentId::from_str("chatroom1").unwrap();
    let document_path = DocumentPath::new(collection_path, document_id);
    let document_name = DocumentName::new(database_name.clone(), document_path.clone());
    assert_eq!(
        document_name.to_string(),
        format!("{}/{}", database_name.to_string(), document_path.to_string())
    );
}

#[test]
fn test_building_structs_using_new_constructor() {
    let project_id = ProjectId::from_str("my-project").unwrap();
    let database_id = DatabaseId::from_str("my-database").unwrap();
    let database_name = DatabaseName::new(project_id, database_id);
    let collection_id = CollectionId::from_str("chatrooms").unwrap();
    let collection_path = CollectionPath::new(None, collection_id);
    let collection_name = CollectionName::new(database_name.clone(), collection_path.clone());
    assert_eq!(
        collection_name.to_string(),
        "projects/my-project/databases/my-database/documents/chatrooms"
    );
    let document_id = DocumentId::from_str("chatroom1").unwrap();
    let document_path = DocumentPath::new(collection_path, document_id);
    let document_name = DocumentName::new(database_name, document_path);
    assert_eq!(
        document_name.to_string(),
        "projects/my-project/databases/my-database/documents/chatrooms/chatroom1"
    );
}

#[test]
fn test_conversion_between_string() {
    let s = "chatrooms";
    let collection_id = CollectionId::from_str(s).unwrap();
    assert_eq!(collection_id.to_string(), s);

    let s = "projects/my-project/databases/my-database/documents/chatrooms";
    let collection_name = CollectionName::from_str(s).unwrap();
    assert_eq!(collection_name.to_string(), s);

    let s = "chatrooms";
    let collection_path = CollectionPath::from_str(s).unwrap();
    assert_eq!(collection_path.to_string(), s);

    let s = "my-database";
    let database_id = DatabaseId::from_str(s).unwrap();
    assert_eq!(database_id.to_string(), s);

    let s = "projects/my-project/databases/my-database/documents";
    let database_name = DatabaseName::from_str(s).unwrap();
    assert_eq!(database_name.to_string(), s);

    let s = "chatroom1";
    let document_id = DocumentId::from_str(s).unwrap();
    assert_eq!(document_id.to_string(), s);

    let s = "projects/my-project/databases/my-database/documents/chatrooms/chatroom1";
    let document_name = DocumentName::from_str(s).unwrap();
    assert_eq!(document_name.to_string(), s);

    let s = "chatrooms/chatroom1";
    let document_path = DocumentPath::from_str(s).unwrap();
    assert_eq!(document_path.to_string(), s);

    let s = "my-project";
    let project_id = ProjectId::from_str(s).unwrap();
    assert_eq!(project_id.to_string(), s);
}

#[test]
fn database_name_renders_its_prefix() {
    let project_id = ProjectId::from_str("proj01").unwrap();
    let database_id = DatabaseId::from_str("db01").unwrap();
    assert_eq!(
        DatabaseName::new(project_id, database_id).to_string(),
        "projects/proj01/databases/db01/documents"
    );
}

#[test]
fn collection_name_decomposes_into_parent_and_id() {
    let name = CollectionName::from_str("projects/my-project/databases/d123/documents/c1/doc1/c2")
        .unwrap();
    assert_eq!(name.collection_id().to_string(), "c2");
    let parent = name.clone().parent().unwrap();
    assert_eq!(
        parent.to_string(),
        "projects/my-project/databases/d123/documents/c1/doc1"
    );
    assert!(CollectionName::from_str("projects/my-project/databases/d123/documents/c1/doc1").is_err());
    let top = CollectionName::from_str("projects/my-project/databases/d123/documents/c1").unwrap();
    assert!(top.parent().is_none());
}

#[test]
fn name_errors_are_ordered() {
    let long = format!("projects/my-project/databases/my-database/documents/{}", "x".repeat(6100));
    assert_eq!(CollectionName::from_str(&long).unwrap_err(), Error::TooLong);
    assert_eq!(
        CollectionName::from_str("projects/my-project/databases/my-database/documents/c/d")
            .unwrap_err(),
        Error::SegmentCount
    );
    assert_eq!(
        CollectionName::from_str("projects/my-project/dbs/my-database/documents/c").unwrap_err(),
        Error::Prefix
    );
    assert_eq!(
        DocumentName::from_str("projects/P/databases/my-database/documents/c/d").unwrap_err(),
        Error::ProjectId
    );
    assert_eq!(
        DocumentName::from_str("projects/my-project/databases/D/documents/c/d").unwrap_err(),
        Error::DatabaseId
    );
    assert_eq!(
        DocumentName::from_str("projects/my-project/databases/my-database/documents/c/..")
            .unwrap_err(),
        Error::DocumentId
    );
    assert_eq!(
        DatabaseName::from_str("projects/my-project/databases/my-database").unwrap_err(),
        Error::Prefix
    );
}

#[test]
fn document_name_decomposes() {
    let name = DocumentName::from_str(
        "projects/my-project/databases/my-database/documents/rooms/r1/messages/m1",
    )
    .unwrap();
    assert_eq!(name.document_id().to_string(), "m1");
    assert_eq!(name.collection_id().to_string(), "messages");
    assert_eq!(
        name.database_name().to_string(),
        "projects/my-project/databases/my-database/documents"
    );
    assert_eq!(
        name.clone().parent().to_string(),
        "projects/my-project/databases/my-database/documents/rooms/r1/messages"
    );
    let database_name = build_database_name();
    let c = database_name.collection("rooms").unwrap();
    assert_eq!(
        c.clone().doc("r1").unwrap().to_string(),
        "projects/my-project/databases/my-database/documents/rooms/r1"
    );
    assert_eq!(c.doc("a/b").unwrap_err(), Error::DocumentId);
}

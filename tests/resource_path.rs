use firestore_client::resource_path::{CollectionPath, DocumentPath, Error, Path, RootPath};

fn demo_root() -> RootPath {
    RootPath::new("demo-project1".to_string(), "(default)".to_string()).unwrap()
}

#[test]
fn test_collection_path_doc() {
    let colleciton_path = demo_root().collection("users".to_string()).unwrap();
    assert_eq!(
        colleciton_path.clone().doc("1".to_string()).unwrap().path(),
        "projects/demo-project1/databases/(default)/documents/users/1"
    );
    assert_eq!(
        colleciton_path.doc("1".to_string()).unwrap().path(),
        "projects/demo-project1/databases/(default)/documents/users/1"
    );
}

#[test]
fn test_root_path_collection() {
    let root_path = demo_root();
    assert_eq!(
        root_path.clone().collection("users".to_string()).unwrap().path(),
        "projects/demo-project1/databases/(default)/documents/users"
    );
    assert_eq!(
        root_path.collection("users".to_string()).unwrap().path(),
        "projects/demo-project1/databases/(default)/documents/users"
    );
}

#[test]
fn test_root_path_from_str() {
    // 6KiB
    let s = format!(
        "{}/{}/{}/{}/{}/{}/{}",
        "projects/demo-project1/databases/(default)/documents",
        "1".repeat(1024),
        "2".repeat(1024),
        "3".repeat(1024),
        "4".repeat(1024),
        "5".repeat(1024),
        "6".repeat(1024 - 58)
    );
    assert_eq!(s.len(), 1_024 * 6);
    assert!(Path::from_str(&s).is_ok());
    let s = format!("{}a", s);
    assert_eq!(s.len(), 1_024 * 6 + 1);
    assert!(Path::from_str(&s).is_err());

    assert!(Path::from_str("projects1/demo-project1/databases/(default)/documents").is_err());
    assert!(Path::from_str("projects/demo-project1/databases1/(default)/documents").is_err());
    assert!(Path::from_str("projects/demo-project1/databases/(default)/documents1").is_err());

    let path = Path::from_str("projects/demo-project1/databases/(default)/documents").unwrap();
    assert_eq!(path, Path::Root(demo_root()));

    let path = Path::from_str("projects/demo-project1/databases/(default)/documents/users").unwrap();
    assert_eq!(
        path,
        Path::Collection(demo_root().collection("users".to_string()).unwrap())
    );

    let path =
        Path::from_str("projects/demo-project1/databases/(default)/documents/users/1").unwrap();
    assert_eq!(
        path,
        Path::Document(demo_root().collection("users".to_string()).unwrap().doc("1".to_string()).unwrap())
    );

    let path = Path::from_str(
        "projects/demo-project1/databases/(default)/documents/users/1/repositories",
    )
    .unwrap();
    assert_eq!(
        path,
        Path::Collection(
            demo_root()
                .collection("users".to_string()).unwrap()
                .doc("1".to_string()).unwrap()
                .collection("repositories".to_string()).unwrap()
        )
    );

    let path = Path::from_str(
        "projects/demo-project1/databases/(default)/documents/users/1/repositories/2",
    )
    .unwrap();
    assert_eq!(
        path,
        Path::Document(
            demo_root()
                .collection("users".to_string()).unwrap()
                .doc("1".to_string()).unwrap()
                .collection("repositories".to_string()).unwrap()
                .doc("2".to_string()).unwrap()
        )
    );
}

#[test]
fn path_test() {
    // root_path
    let root_path = demo_root();
    assert_eq!(root_path.database_id(), "(default)");
    assert_eq!(
        root_path.database_name(),
        "projects/demo-project1/databases/(default)"
    );
    assert_eq!(
        root_path.path(),
        "projects/demo-project1/databases/(default)/documents"
    );
    assert_eq!(root_path.project_id(), "demo-project1");

    // collection_path
    let collection_path = root_path.collection("users".to_string()).unwrap();
    assert_eq!(collection_path.id(), "users");
    assert_eq!(
        collection_path.parent().path(),
        "projects/demo-project1/databases/(default)/documents"
    );
    assert_eq!(
        collection_path.path(),
        "projects/demo-project1/databases/(default)/documents/users"
    );
    assert_eq!(
        collection_path.root().path(),
        "projects/demo-project1/databases/(default)/documents"
    );

    // document_path
    let document_path = collection_path.doc("1".to_string()).unwrap();
    assert_eq!(document_path.id(), "1");
    assert_eq!(
        document_path.parent().path(),
        "projects/demo-project1/databases/(default)/documents/users"
    );
    assert_eq!(
        document_path.path(),
        "projects/demo-project1/databases/(default)/documents/users/1"
    );
    assert_eq!(
        document_path.root().path(),
        "projects/demo-project1/databases/(default)/documents"
    );

    // collection_path (nested)
    let nested_collection_path = document_path.collection("repositories".to_string()).unwrap();
    assert_eq!(nested_collection_path.id(), "repositories");
    assert_eq!(
        nested_collection_path.parent().path(),
        "projects/demo-project1/databases/(default)/documents/users/1"
    );
    assert_eq!(
        nested_collection_path.path(),
        "projects/demo-project1/databases/(default)/documents/users/1/repositories"
    );
    assert_eq!(
        nested_collection_path.root().path(),
        "projects/demo-project1/databases/(default)/documents"
    );

    // document_path (nested)
    let nested_document_path = nested_collection_path.doc("2".to_string()).unwrap();
    assert_eq!(nested_document_path.id(), "2");
    assert_eq!(
        nested_document_path.parent().path(),
        "projects/demo-project1/databases/(default)/documents/users/1/repositories"
    );
    assert_eq!(
        nested_document_path.path(),
        "projects/demo-project1/databases/(default)/documents/users/1/repositories/2"
    );
    assert_eq!(
        nested_document_path.root().path(),
        "projects/demo-project1/databases/(default)/documents"
    );
}

#[test]
fn typed_parsers_check_the_kind() {
    let root = "projects/demo-project1/databases/(default)/documents";
    assert!(RootPath::from_str(root).is_ok());
    assert_eq!(
        RootPath::from_str(&format!("{}/users", root)).unwrap_err(),
        Error::InvalidRootPath
    );
    assert!(CollectionPath::from_str(&format!("{}/users", root)).is_ok());
    assert_eq!(
        CollectionPath::from_str(&format!("{}/users/1", root)).unwrap_err(),
        Error::InvalidCollectionPath
    );
    assert!(DocumentPath::from_str(&format!("{}/users/1", root)).is_ok());
    assert_eq!(
        DocumentPath::from_str(root).unwrap_err(),
        Error::InvalidDocumentPath
    );
    assert_eq!(
        Path::from_str(&"x".repeat(6145)).unwrap_err(),
        Error::TooLong
    );
    assert_eq!(
        Path::from_str("projects/p/databases/d").unwrap_err(),
        Error::InvalidRootPath
    );
}

#[test]
fn conversions_wrap_each_kind() {
    let c = demo_root().collection("users".to_string()).unwrap();
    let p = Path::from(c.clone());
    assert_eq!(p.path(), c.path());
    assert_eq!(p.root().path(), demo_root().path());
    let d = c.doc("7".to_string()).unwrap();
    assert!(matches!(Path::from(d), Path::Document(_)));
    assert!(matches!(Path::from(demo_root()), Path::Root(_)));
}

#[test]
fn identifiers_are_held_to_their_grammars() {
    assert_eq!(
        RootPath::new("X".to_string(), "(default)".to_string()).unwrap_err(),
        Error::InvalidRootPath
    );
    assert_eq!(
        RootPath::new("demo-project1".to_string(), "Y".to_string()).unwrap_err(),
        Error::InvalidRootPath
    );
    assert_eq!(
        Path::from_str("projects/X/databases/Y/documents").unwrap_err(),
        Error::InvalidRootPath
    );
    let root = "projects/demo-project1/databases/(default)/documents";
    assert_eq!(
        Path::from_str(&format!("{}/a/b/..", root)).unwrap_err(),
        Error::InvalidCollectionId
    );
    assert_eq!(
        Path::from_str(&format!("{}/a/__b__/c", root)).unwrap_err(),
        Error::InvalidDocumentId
    );
    assert_eq!(
        demo_root().collection(".".to_string()).unwrap_err(),
        Error::InvalidCollectionId
    );
    let users = demo_root().collection("users".to_string()).unwrap();
    assert_eq!(
        users.clone().doc("a/b".to_string()).unwrap_err(),
        Error::InvalidDocumentId
    );
    let doc = users.doc("1".to_string()).unwrap();
    assert_eq!(
        doc.collection("..".to_string()).unwrap_err(),
        Error::InvalidCollectionId
    );
}

#[test]
fn root_of_a_root_is_itself() {
    let p = Path::from(demo_root());
    assert_eq!(p.root(), &demo_root());
}

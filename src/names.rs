use vstd::prelude::*;

use crate::error::Error;
use crate::ids::{
    CollectionId, DatabaseId, DocumentId, ProjectId, valid_collection_id, valid_database_id,
    valid_document_id, valid_project_id,
};
use crate::paths::{
    CollectionPath, DocumentPath, build_collection, build_document,
    collection_segments, document_segments, first_segment_error,
};
use crate::segments::{
    byte_len, byte_length, join_slash, lemma_join_concat, lemma_join_push, lemma_join_split,
    split_on_slash, split_slash, views,
};

verus! {

/// Most bytes that a resource name may take.
pub const MAX_NAME_BYTES: usize = 6144;

/// Number of segments in the fixed prefix of every resource name.
pub const ROOT_SEGMENTS: usize = 5;

pub open spec fn word_projects() -> Seq<char> {
    seq!['p', 'r', 'o', 'j', 'e', 'c', 't', 's']
}

pub open spec fn word_databases() -> Seq<char> {
    seq!['d', 'a', 't', 'a', 'b', 'a', 's', 'e', 's']
}

pub open spec fn word_documents() -> Seq<char> {
    seq!['d', 'o', 'c', 'u', 'm', 'e', 'n', 't', 's']
}

/// The five segments `projects/{project}/databases/{database}/documents`.
pub open spec fn root_segments(project: Seq<char>, database: Seq<char>) -> Seq<Seq<char>> {
    seq![word_projects(), project, word_databases(), database, word_documents()]
}

/// The literal tokens of the prefix stand at their places.
pub open spec fn root_tokens_ok(segs: Seq<Seq<char>>) -> bool {
    &&& segs.len() >= 5
    &&& segs[0] == word_projects()
    &&& segs[2] == word_databases()
    &&& segs[4] == word_documents()
}

/// What is wrong with the prefix of `segs`, if anything, checked in the
/// order tokens, project identifier, database identifier.
pub open spec fn root_error(segs: Seq<Seq<char>>) -> Option<Error> {
    if !root_tokens_ok(segs) {
        Some(Error::Prefix)
    } else if !valid_project_id(segs[1]) {
        Some(Error::ProjectId)
    } else if !valid_database_id(segs[3]) {
        Some(Error::DatabaseId)
    } else {
        None
    }
}

/// The segments of a database name.
pub open spec fn database_name_segments(segs: Seq<Seq<char>>) -> bool {
    segs.len() == 5 && root_error(segs) is None
}

/// The segments of a collection name: a database name, then a collection path.
pub open spec fn collection_name_segments(segs: Seq<Seq<char>>) -> bool {
    &&& segs.len() > 5
    &&& database_name_segments(segs.subrange(0, 5))
    &&& collection_segments(segs.subrange(5, segs.len() as int))
}

/// The segments of a document name: a database name, then a document path.
pub open spec fn document_name_segments(segs: Seq<Seq<char>>) -> bool {
    &&& segs.len() > 5
    &&& database_name_segments(segs.subrange(0, 5))
    &&& document_segments(segs.subrange(5, segs.len() as int))
}

/// The error of parsing `s` as a database name.
pub open spec fn database_name_error(s: Seq<char>) -> Error {
    let segs = split_slash(s);
    if byte_len(s) > MAX_NAME_BYTES {
        Error::TooLong
    } else if segs.len() != 5 {
        Error::Prefix
    } else {
        root_error(segs)->0
    }
}

/// The error of parsing `s` as a collection name (`odd` true) or a document
/// name (`odd` false): length, then segment count, then prefix, then the
/// first segment of the path that breaks its grammar.
pub open spec fn name_error(s: Seq<char>, odd: bool) -> Error {
    let segs = split_slash(s);
    if byte_len(s) > MAX_NAME_BYTES {
        Error::TooLong
    } else if segs.len() <= 5 || ((segs.len() - 5) % 2 == 1) != odd {
        Error::SegmentCount
    } else if root_error(segs) is Some {
        root_error(segs)->0
    } else {
        first_segment_error(segs.subrange(5, segs.len() as int))
    }
}

/// The root of one database: `projects/{project_id}/databases/{database_id}/documents`.
#[derive(Debug, PartialEq, Eq, Hash, PartialOrd, Ord)]
pub struct DatabaseName {
    database_id: DatabaseId,
    project_id: ProjectId,
}

impl View for DatabaseName {
    type V = Seq<Seq<char>>;

    closed spec fn view(&self) -> Seq<Seq<char>> {
        root_segments(self.project_id@, self.database_id@)
    }
}

impl DatabaseName {
    #[verifier::type_invariant]
    pub(crate) open spec fn inv(self) -> bool {
        database_name_segments(self@)
    }
}

impl Clone for DatabaseName {
    fn clone(&self) -> (r: Self)
        ensures
            r@ == self@,
    {
        proof {
            use_type_invariant(self);
        }
        DatabaseName { database_id: self.database_id.clone(), project_id: self.project_id.clone() }
    }
}

/// `projects/{project}/databases/{database}`: the first four root segments.
pub(crate) fn database_string(project: &str, database: &str) -> (r: String)
    ensures
        r@ == join_slash(root_segments(project@, database@).subrange(0, 4)),
{
    let mut s = "projects/".to_owned();
    s.append(project);
    s.append("/databases/");
    s.append(database);
    proof {
        reveal_strlit("projects/");
        reveal_strlit("/databases/");
        let v = root_segments(project@, database@);
        lemma_join_push(seq![v[0]], v[1]);
        lemma_join_push(seq![v[0], v[1]], v[2]);
        lemma_join_push(seq![v[0], v[1], v[2]], v[3]);
        assert(seq![v[0]].push(v[1]) =~= seq![v[0], v[1]]);
        assert(seq![v[0], v[1]].push(v[2]) =~= seq![v[0], v[1], v[2]]);
        assert(seq![v[0], v[1], v[2]].push(v[3]) =~= v.subrange(0, 4));
        assert(s@ =~= join_slash(v.subrange(0, 4)));
    }
    s
}

/// `projects/{project}/databases/{database}/documents`.
pub(crate) fn root_string(project: &str, database: &str) -> (r: String)
    ensures
        r@ == join_slash(root_segments(project@, database@)),
{
    let mut s = database_string(project, database);
    s.append("/documents");
    proof {
        reveal_strlit("/documents");
        let v = root_segments(project@, database@);
        lemma_join_push(v.subrange(0, 4), v[4]);
        assert(v.subrange(0, 4).push(v[4]) =~= v);
        assert(s@ =~= join_slash(v));
    }
    s
}

/// The literal tokens `projects`, `databases` and `documents` stand at
/// positions 0, 2 and 4 of `parts`.
pub(crate) fn root_tokens_match(parts: &Vec<String>) -> (r: bool)
    requires
        parts@.len() >= 5,
    ensures
        r == root_tokens_ok(views(parts@)),
{
    let ghost segs = views(parts@);
    let projects = "projects".to_owned();
    let databases = "databases".to_owned();
    let documents = "documents".to_owned();
    proof {
        reveal_strlit("projects");
        reveal_strlit("databases");
        reveal_strlit("documents");
        assert(projects@ =~= word_projects());
        assert(databases@ =~= word_databases());
        assert(documents@ =~= word_documents());
        assert(segs[0] == parts@[0]@);
        assert(segs[2] == parts@[2]@);
        assert(segs[4] == parts@[4]@);
    }
    parts[0] == projects && parts[2] == databases && parts[4] == documents
}

/// Checks the five prefix segments `parts[0..5]`.
fn parse_root(parts: &Vec<String>) -> (r: Result<DatabaseName, Error>)
    requires
        parts@.len() >= 5,
    ensures
        r is Ok <==> root_error(views(parts@)) is None,
        r matches Ok(n) ==> n@ == views(parts@).subrange(0, 5),
        r matches Err(e) ==> root_error(views(parts@)) == Some(e),
{
    let ghost segs = views(parts@);
    if !root_tokens_match(parts) {
        return Err(Error::Prefix);
    }
    let project_id = match ProjectId::from_str(parts[1].as_str()) {
        Ok(p) => p,
        Err(e) => {
            return Err(e);
        },
    };
    let database_id = match DatabaseId::from_str(parts[3].as_str()) {
        Ok(d) => d,
        Err(e) => {
            return Err(e);
        },
    };
    let r = DatabaseName::new(project_id, database_id);
    proof {
        assert(r@ =~= segs.subrange(0, 5));
    }
    Ok(r)
}

impl DatabaseName {
    /// The root of database `database_id` in project `project_id`.
    pub fn new(project_id: ProjectId, database_id: DatabaseId) -> (r: DatabaseName)
        ensures
            r@ == root_segments(project_id@, database_id@),
    {
        proof {
            use_type_invariant(&project_id);
            use_type_invariant(&database_id);
        }
        DatabaseName { database_id, project_id }
    }

    pub fn project_id(&self) -> (r: &ProjectId)
        ensures
            r@ == self@[1],
    {
        &self.project_id
    }

    pub fn database_id(&self) -> (r: &DatabaseId)
        ensures
            r@ == self@[3],
    {
        &self.database_id
    }

    /// `projects/{project_id}/databases/{database_id}/documents`.
    pub fn to_string(&self) -> (r: String)
        ensures
            r@ == join_slash(self@),
    {
        root_string(self.project_id.as_str(), self.database_id.as_str())
    }

    /// Parses `projects/{project_id}/databases/{database_id}/documents`.
    pub fn from_str(s: &str) -> (r: Result<DatabaseName, Error>)
        ensures
            r is Ok <==> byte_len(s@) <= MAX_NAME_BYTES && database_name_segments(split_slash(s@)),
            r matches Ok(n) ==> n@ == split_slash(s@) && join_slash(n@) == s@,
            r matches Err(e) ==> e == database_name_error(s@),
    {
        if byte_length(s) > MAX_NAME_BYTES {
            return Err(Error::TooLong);
        }
        let parts = split_on_slash(s);
        if parts.len() != ROOT_SEGMENTS {
            return Err(Error::Prefix);
        }
        let r = parse_root(&parts);
        proof {
            lemma_join_split(s@);
            assert(views(parts@).subrange(0, 5) =~= views(parts@));
        }
        r
    }

    /// The collection at `collection_path`, relative to this database.
    pub fn collection(self, collection_path: &str) -> (r: Result<CollectionName, Error>)
        ensures
            r is Ok <==> collection_segments(split_slash(collection_path@)),
            r matches Ok(c) ==> c@ == self@ + split_slash(collection_path@),
            r matches Err(e) ==> e == (if split_slash(collection_path@).len() % 2 == 0 {
                Error::SegmentCount
            } else {
                first_segment_error(split_slash(collection_path@))
            }),
    {
        match CollectionPath::from_str(collection_path) {
            Ok(p) => Ok(CollectionName::new(self, p)),
            Err(e) => Err(e),
        }
    }
}

/// A collection in a database: `{database_name}/{collection_path}`.
#[derive(Debug, PartialEq, Eq, Hash, PartialOrd, Ord)]
pub struct CollectionName {
    collection_path: CollectionPath,
    database_name: DatabaseName,
}

impl View for CollectionName {
    type V = Seq<Seq<char>>;

    closed spec fn view(&self) -> Seq<Seq<char>> {
        self.database_name@ + self.collection_path@
    }
}

impl CollectionName {
    #[verifier::type_invariant]
    pub(crate) open spec fn inv(self) -> bool {
        collection_name_segments(self@)
    }
}

impl Clone for CollectionName {
    fn clone(&self) -> (r: Self)
        ensures
            r@ == self@,
    {
        proof {
            use_type_invariant(self);
        }
        CollectionName {
            collection_path: self.collection_path.clone(),
            database_name: self.database_name.clone(),
        }
    }
}

impl CollectionName {
    /// The collection `collection_path` in database `database_name`.
    pub fn new(database_name: DatabaseName, collection_path: CollectionPath) -> (r: CollectionName)
        ensures
            r@ == database_name@ + collection_path@,
    {
        proof {
            use_type_invariant(&database_name);
            use_type_invariant(&collection_path);
            let v = database_name@ + collection_path@;
            assert(v.subrange(0, 5) =~= database_name@);
            assert(v.subrange(5, v.len() as int) =~= collection_path@);
        }
        CollectionName { collection_path, database_name }
    }

    pub fn database_name(&self) -> (r: &DatabaseName)
        ensures
            r@ == self@.subrange(0, 5),
    {
        let r = &self.database_name;
        assert(self@.subrange(0, 5) =~= r@);
        r
    }

    pub fn collection_path(&self) -> (r: &CollectionPath)
        ensures
            r@ == self@.subrange(5, self@.len() as int),
    {
        let r = &self.collection_path;
        assert(self@.subrange(5, self@.len() as int) =~= r@);
        r
    }

    /// The last segment: the collection's own identifier.
    pub fn collection_id(&self) -> (r: &CollectionId)
        ensures
            r@ == self@.last(),
    {
        proof {
            use_type_invariant(&self.collection_path);
        }
        self.collection_path.collection_id()
    }

    /// The document that holds this collection, none for a top-level one.
    pub fn parent(self) -> (r: Option<DocumentName>)
        ensures
            self@.len() == 6 ==> r is None,
            self@.len() > 6 ==> (r matches Some(d) && d@ == self@.drop_last()),
    {
        proof {
            use_type_invariant(&self.collection_path);
        }
        let ghost v = self@;
        let database_name = self.database_name;
        match self.collection_path.parent() {
            Some(d) => {
                let r = DocumentName::new(database_name, d);
                assert(r@ =~= v.drop_last());
                Some(r)
            },
            None => None,
        }
    }

    /// The document `document_id` in this collection.
    pub fn doc(self, document_id: &str) -> (r: Result<DocumentName, Error>)
        ensures
            r is Ok <==> valid_document_id(document_id@),
            r matches Ok(d) ==> d@ == self@.push(document_id@),
            r matches Err(e) ==> e == Error::DocumentId,
    {
        let ghost v = self@;
        let database_name = self.database_name;
        match self.collection_path.doc(document_id) {
            Ok(p) => {
                let r = DocumentName::new(database_name, p);
                assert(r@ =~= v.push(document_id@));
                Ok(r)
            },
            Err(e) => Err(e),
        }
    }

    /// `{database_name}/{collection_path}`.
    pub fn to_string(&self) -> (r: String)
        ensures
            r@ == join_slash(self@),
    {
        proof {
            use_type_invariant(&self.collection_path);
        }
        let mut s = self.database_name.to_string();
        s.append("/");
        let p = self.collection_path.to_string();
        s.append(p.as_str());
        proof {
            reveal_strlit("/");
            lemma_join_concat(self.database_name@, self.collection_path@);
        }
        s
    }

    /// Parses `{database_name}/{collection_path}`.
    pub fn from_str(s: &str) -> (r: Result<CollectionName, Error>)
        ensures
            r is Ok <==> byte_len(s@) <= MAX_NAME_BYTES && collection_name_segments(
                split_slash(s@),
            ),
            r matches Ok(n) ==> n@ == split_slash(s@) && join_slash(n@) == s@,
            r matches Err(e) ==> e == name_error(s@, true),
    {
        if byte_length(s) > MAX_NAME_BYTES {
            return Err(Error::TooLong);
        }
        let mut parts = split_on_slash(s);
        let ghost segs = views(parts@);
        proof {
            lemma_join_split(s@);
        }
        if parts.len() <= ROOT_SEGMENTS || (parts.len() - ROOT_SEGMENTS) % 2 == 0 {
            return Err(Error::SegmentCount);
        }
        let database_name = match parse_root(&parts) {
            Ok(n) => n,
            Err(e) => {
                return Err(e);
            },
        };
        let rest = parts.split_off(ROOT_SEGMENTS);
        proof {
            assert(views(rest@) =~= segs.subrange(5, segs.len() as int));
            assert(database_name_segments(segs.subrange(0, 5))) by {
                assert(segs.subrange(0, 5).len() == 5);
                assert(root_error(segs.subrange(0, 5)) == root_error(segs));
            }
        }
        let collection_path = match build_collection(&rest, rest.len()) {
            Ok(p) => p,
            Err(e) => {
                return Err(e);
            },
        };
        let r = CollectionName::new(database_name, collection_path);
        proof {
            assert(views(rest@).subrange(0, rest@.len() as int) =~= views(rest@));
            assert(r@ =~= segs);
        }
        Ok(r)
    }
}

/// A document in a database: `{database_name}/{document_path}`.
#[derive(Debug, PartialEq, Eq, Hash, PartialOrd, Ord)]
pub struct DocumentName {
    database_name: DatabaseName,
    document_path: DocumentPath,
}

impl View for DocumentName {
    type V = Seq<Seq<char>>;

    closed spec fn view(&self) -> Seq<Seq<char>> {
        self.database_name@ + self.document_path@
    }
}

impl DocumentName {
    #[verifier::type_invariant]
    pub(crate) open spec fn inv(self) -> bool {
        document_name_segments(self@)
    }
}

impl Clone for DocumentName {
    fn clone(&self) -> (r: Self)
        ensures
            r@ == self@,
    {
        proof {
            use_type_invariant(self);
        }
        DocumentName {
            database_name: self.database_name.clone(),
            document_path: self.document_path.clone(),
        }
    }
}

impl DocumentName {
    /// The document `document_path` in database `database_name`.
    pub fn new(database_name: DatabaseName, document_path: DocumentPath) -> (r: DocumentName)
        ensures
            r@ == database_name@ + document_path@,
    {
        proof {
            use_type_invariant(&database_name);
            use_type_invariant(&document_path);
            let v = database_name@ + document_path@;
            assert(v.subrange(0, 5) =~= database_name@);
            assert(v.subrange(5, v.len() as int) =~= document_path@);
        }
        DocumentName { database_name, document_path }
    }

    pub fn database_name(&self) -> (r: &DatabaseName)
        ensures
            r@ == self@.subrange(0, 5),
    {
        let r = &self.database_name;
        assert(self@.subrange(0, 5) =~= r@);
        r
    }

    pub fn document_path(&self) -> (r: &DocumentPath)
        ensures
            r@ == self@.subrange(5, self@.len() as int),
    {
        let r = &self.document_path;
        assert(self@.subrange(5, self@.len() as int) =~= r@);
        r
    }

    /// The last segment: the document's own identifier.
    pub fn document_id(&self) -> (r: &DocumentId)
        ensures
            r@ == self@.last(),
    {
        proof {
            use_type_invariant(&self.document_path);
        }
        self.document_path.document_id()
    }

    /// The identifier of the collection that holds this document.
    pub fn collection_id(&self) -> (r: &CollectionId)
        ensures
            r@ == self@[self@.len() - 2],
    {
        proof {
            use_type_invariant(&self.document_path);
        }
        self.document_path.collection_id()
    }

    /// The collection that holds this document.
    pub fn parent(self) -> (r: CollectionName)
        ensures
            r@ == self@.drop_last(),
    {
        proof {
            use_type_invariant(&self.document_path);
        }
        let ghost v = self@;
        let r = CollectionName::new(self.database_name, self.document_path.parent());
        assert(r@ =~= v.drop_last());
        r
    }

    /// The sub-collection `collection_id` of this document.
    pub fn collection(self, collection_id: &str) -> (r: Result<CollectionName, Error>)
        ensures
            r is Ok <==> valid_collection_id(collection_id@),
            r matches Ok(c) ==> c@ == self@.push(collection_id@),
            r matches Err(e) ==> e == Error::CollectionId,
    {
        let ghost v = self@;
        let database_name = self.database_name;
        match self.document_path.collection(collection_id) {
            Ok(p) => {
                let r = CollectionName::new(database_name, p);
                assert(r@ =~= v.push(collection_id@));
                Ok(r)
            },
            Err(e) => Err(e),
        }
    }

    /// `{database_name}/{document_path}`.
    pub fn to_string(&self) -> (r: String)
        ensures
            r@ == join_slash(self@),
    {
        proof {
            use_type_invariant(&self.document_path);
        }
        let mut s = self.database_name.to_string();
        s.append("/");
        let p = self.document_path.to_string();
        s.append(p.as_str());
        proof {
            reveal_strlit("/");
            lemma_join_concat(self.database_name@, self.document_path@);
        }
        s
    }

    /// Parses `{database_name}/{document_path}`.
    pub fn from_str(s: &str) -> (r: Result<DocumentName, Error>)
        ensures
            r is Ok <==> byte_len(s@) <= MAX_NAME_BYTES && document_name_segments(split_slash(s@)),
            r matches Ok(n) ==> n@ == split_slash(s@) && join_slash(n@) == s@,
            r matches Err(e) ==> e == name_error(s@, false),
    {
        if byte_length(s) > MAX_NAME_BYTES {
            return Err(Error::TooLong);
        }
        let mut parts = split_on_slash(s);
        let ghost segs = views(parts@);
        proof {
            lemma_join_split(s@);
        }
        if parts.len() <= ROOT_SEGMENTS || (parts.len() - ROOT_SEGMENTS) % 2 == 1 {
            return Err(Error::SegmentCount);
        }
        let database_name = match parse_root(&parts) {
            Ok(n) => n,
            Err(e) => {
                return Err(e);
            },
        };
        let rest = parts.split_off(ROOT_SEGMENTS);
        proof {
            assert(views(rest@) =~= segs.subrange(5, segs.len() as int));
            assert(database_name_segments(segs.subrange(0, 5))) by {
                assert(root_error(segs.subrange(0, 5)) == root_error(segs));
            }
        }
        let document_path = match build_document(&rest) {
            Ok(p) => p,
            Err(e) => {
                return Err(e);
            },
        };
        let r = DocumentName::new(database_name, document_path);
        proof {
            assert(r@ =~= segs);
        }
        Ok(r)
    }
}

} // verus!

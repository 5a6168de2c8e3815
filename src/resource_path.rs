use vstd::prelude::*;

use crate::ids::{
    CollectionId, DatabaseId, DocumentId, ProjectId, valid_collection_id, valid_database_id,
    valid_document_id, valid_project_id,
};
use crate::names::{
    MAX_NAME_BYTES, ROOT_SEGMENTS, database_string, root_error, root_segments, root_string,
    root_tokens_match,
};
use crate::paths::{all_segments_ok, first_bad_from, lemma_push_ok, segment_ok};
use crate::segments::{
    byte_len, byte_length, join_slash, lemma_join_push, split_on_slash, split_slash, views,
};

verus! {

/// Why a string or an identifier was refused for a path under a database root.
#[derive(Clone, Copy, Debug, PartialEq, Eq, Structural)]
pub enum Error {
    /// The prefix tokens, the project identifier or the database identifier
    /// break their grammar.
    InvalidRootPath,
    /// The text is a valid path, but not to a collection.
    InvalidCollectionPath,
    /// The text is a valid path, but not to a document.
    InvalidDocumentPath,
    /// A segment in a collection position breaks the collection grammar.
    InvalidCollectionId,
    /// A segment in a document position breaks the document grammar.
    InvalidDocumentId,
    TooLong,
}

/// Number of segments after the root: odd for a collection, even for a
/// document, none for the root itself.
pub open spec fn depth(v: Seq<Seq<char>>) -> int {
    v.len() - ROOT_SEGMENTS
}

/// The segments after the root.
pub open spec fn relative(v: Seq<Seq<char>>) -> Seq<Seq<char>> {
    v.subrange(ROOT_SEGMENTS as int, v.len() as int)
}

/// An absolute path in which every segment meets its grammar: the root
/// tokens, the project and database identifiers, then collection and
/// document identifiers in turn.
pub open spec fn well_formed(v: Seq<Seq<char>>) -> bool {
    &&& v.len() >= 5
    &&& root_error(v) is None
    &&& all_segments_ok(relative(v))
}

/// The grammar that a segment appended at the current depth must meet.
pub open spec fn next_segment_ok(v: Seq<Seq<char>>, x: Seq<char>) -> bool {
    if depth(v) % 2 == 0 {
        valid_collection_id(x)
    } else {
        valid_document_id(x)
    }
}

/// The error reported for text that is not a well-formed absolute path.
pub open spec fn path_error(s: Seq<char>) -> Error {
    let segs = split_slash(s);
    if byte_len(s) > MAX_NAME_BYTES {
        Error::TooLong
    } else if segs.len() < 5 || root_error(segs) is Some {
        Error::InvalidRootPath
    } else if first_bad_from(relative(segs), 0) % 2 == 0 {
        Error::InvalidCollectionId
    } else {
        Error::InvalidDocumentId
    }
}

/// The text is a well-formed absolute path that fits the length bound.
pub open spec fn parses(s: Seq<char>) -> bool {
    byte_len(s) <= MAX_NAME_BYTES && well_formed(split_slash(s))
}

/// Any path under a database root.
#[derive(Debug, PartialEq, Eq, PartialOrd, Ord)]
pub enum Path {
    Collection(CollectionPath),
    Document(DocumentPath),
    Root(RootPath),
}

/// A collection under the root or under a document.
#[derive(Debug, PartialEq, Eq, PartialOrd, Ord)]
pub struct CollectionPath {
    id: String,
    parent: Box<Path>,
}

/// A document in a collection.
#[derive(Debug, PartialEq, Eq, PartialOrd, Ord)]
pub struct DocumentPath {
    id: String,
    parent: CollectionPath,
}

/// The root of one database.
#[derive(Debug, PartialEq, Eq, PartialOrd, Ord)]
pub struct RootPath {
    database_id: String,
    project_id: String,
}

impl View for RootPath {
    type V = Seq<Seq<char>>;

    closed spec fn view(&self) -> Seq<Seq<char>> {
        root_segments(self.project_id@, self.database_id@)
    }
}

impl RootPath {
    #[verifier::type_invariant]
    pub(crate) open spec fn inv(self) -> bool {
        well_formed(self@)
    }
}

impl Path {
    /// All segments, root first.
    pub closed spec fn segments(self) -> Seq<Seq<char>>
        decreases self,
    {
        match self {
            Path::Collection(c) => c.segments(),
            Path::Document(d) => d.segments(),
            Path::Root(r) => r@,
        }
    }
}

impl CollectionPath {
    pub closed spec fn segments(self) -> Seq<Seq<char>>
        decreases self,
    {
        self.parent.segments().push(self.id@)
    }

    #[verifier::type_invariant]
    pub(crate) open spec fn inv(self) -> bool {
        well_formed(self@) && depth(self@) % 2 == 1
    }
}

impl DocumentPath {
    pub closed spec fn segments(self) -> Seq<Seq<char>>
        decreases self,
    {
        self.parent.segments().push(self.id@)
    }

    #[verifier::type_invariant]
    pub(crate) open spec fn inv(self) -> bool {
        well_formed(self@) && depth(self@) >= 2 && depth(self@) % 2 == 0
    }
}

impl View for Path {
    type V = Seq<Seq<char>>;

    open spec fn view(&self) -> Seq<Seq<char>> {
        self.segments()
    }
}

impl View for CollectionPath {
    type V = Seq<Seq<char>>;

    open spec fn view(&self) -> Seq<Seq<char>> {
        self.segments()
    }
}

impl View for DocumentPath {
    type V = Seq<Seq<char>>;

    open spec fn view(&self) -> Seq<Seq<char>> {
        self.segments()
    }
}

/// The kind of a path agrees with its depth.
pub open spec fn kind_matches(p: Path) -> bool {
    &&& well_formed(p@)
    &&& (p is Root <==> depth(p@) == 0)
    &&& (p is Collection <==> depth(p@) % 2 == 1)
    &&& (p is Document <==> (depth(p@) >= 2 && depth(p@) % 2 == 0))
}

/// Appending a segment that meets the grammar of its position keeps a path
/// well formed.
proof fn lemma_extend(v: Seq<Seq<char>>, x: Seq<char>)
    requires
        well_formed(v),
        next_segment_ok(v, x),
    ensures
        well_formed(v.push(x)),
        depth(v.push(x)) == depth(v) + 1,
{
    let w = v.push(x);
    assert(w[0] == v[0] && w[1] == v[1] && w[2] == v[2] && w[3] == v[3] && w[4] == v[4]);
    assert(root_error(w) == root_error(v));
    let rest = relative(v);
    assert(relative(w) =~= rest.push(x));
    assert(rest.push(x)[rest.len() as int] == x);
    lemma_push_ok(rest, x);
}

impl Clone for RootPath {
    fn clone(&self) -> (r: Self)
        ensures
            r@ == self@,
    {
        proof {
            use_type_invariant(self);
        }
        RootPath { database_id: self.database_id.clone(), project_id: self.project_id.clone() }
    }
}

impl Clone for Path {
    fn clone(&self) -> (r: Self)
        ensures
            r@ == self@,
            r is Root <==> self is Root,
            r is Collection <==> self is Collection,
        decreases self,
    {
        match self {
            Path::Collection(c) => Path::Collection(c.clone()),
            Path::Document(d) => Path::Document(d.clone()),
            Path::Root(r) => Path::Root(r.clone()),
        }
    }
}

impl Clone for CollectionPath {
    fn clone(&self) -> (r: Self)
        ensures
            r@ == self@,
        decreases self,
    {
        proof {
            use_type_invariant(self);
        }
        CollectionPath { id: self.id.clone(), parent: Box::new((*self.parent).clone()) }
    }
}

impl Clone for DocumentPath {
    fn clone(&self) -> (r: Self)
        ensures
            r@ == self@,
        decreases self,
    {
        proof {
            use_type_invariant(self);
        }
        DocumentPath { id: self.id.clone(), parent: self.parent.clone() }
    }
}

impl Path {
    /// The kind of every path agrees with its depth.
    fn kind_agrees(&self)
        ensures
            kind_matches(*self),
    {
        match self {
            Path::Collection(c) => {
                proof {
                    use_type_invariant(c);
                }
            },
            Path::Document(d) => {
                proof {
                    use_type_invariant(d);
                }
            },
            Path::Root(r) => {
                proof {
                    use_type_invariant(r);
                }
            },
        }
    }

    /// The whole path, segments joined by `/`.
    pub fn path(&self) -> (r: String)
        ensures
            r@ == join_slash(self@),
        decreases self,
    {
        match self {
            Path::Collection(p) => p.path(),
            Path::Document(p) => p.path(),
            Path::Root(p) => p.path(),
        }
    }

    /// The database root that this path starts from.
    pub fn root(&self) -> (r: &RootPath)
        ensures
            r@ == self@.subrange(0, 5),
            self matches Path::Root(r0) ==> r == r0,
        decreases self,
    {
        match self {
            Path::Collection(p) => p.root(),
            Path::Document(p) => p.root(),
            Path::Root(p) => {
                proof {
                    use_type_invariant(p);
                }
                assert(p@.subrange(0, 5) =~= p@);
                p
            },
        }
    }

    /// Parses an absolute path; the kind follows from the number of segments.
    pub fn from_str(s: &str) -> (r: Result<Path, Error>)
        ensures
            r is Ok <==> parses(s@),
            r matches Ok(p) ==> p@ == split_slash(s@) && kind_matches(p),
            r matches Err(e) ==> e == path_error(s@),
    {
        from_str(s)
    }
}

impl From<CollectionPath> for Path {
    fn from(value: CollectionPath) -> Path {
        Path::Collection(value)
    }
}

impl vstd::std_specs::convert::FromSpecImpl<CollectionPath> for Path {
    open spec fn obeys_from_spec() -> bool {
        true
    }

    open spec fn from_spec(v: CollectionPath) -> Path {
        Path::Collection(v)
    }
}

impl From<DocumentPath> for Path {
    fn from(value: DocumentPath) -> Path {
        Path::Document(value)
    }
}

impl vstd::std_specs::convert::FromSpecImpl<DocumentPath> for Path {
    open spec fn obeys_from_spec() -> bool {
        true
    }

    open spec fn from_spec(v: DocumentPath) -> Path {
        Path::Document(v)
    }
}

impl From<RootPath> for Path {
    fn from(value: RootPath) -> Path {
        Path::Root(value)
    }
}

impl vstd::std_specs::convert::FromSpecImpl<RootPath> for Path {
    open spec fn obeys_from_spec() -> bool {
        true
    }

    open spec fn from_spec(v: RootPath) -> Path {
        Path::Root(v)
    }
}

impl CollectionPath {
    /// The document `document_id` in this collection; refused unless the
    /// identifier meets the document grammar.
    pub fn doc(self, document_id: String) -> (r: Result<DocumentPath, Error>)
        ensures
            r is Ok <==> valid_document_id(document_id@),
            r matches Ok(d) ==> d@ == self@.push(document_id@),
            r matches Err(e) ==> e == Error::InvalidDocumentId,
    {
        proof {
            use_type_invariant(&self);
        }
        if DocumentId::from_str(document_id.as_str()).is_err() {
            return Err(Error::InvalidDocumentId);
        }
        proof {
            lemma_extend(self@, document_id@);
        }
        Ok(DocumentPath { id: document_id, parent: self })
    }

    pub fn id(&self) -> (r: &str)
        ensures
            r@ == self@.last(),
    {
        self.id.as_str()
    }

    pub fn parent(&self) -> (r: &Path)
        ensures
            r@ == self@.drop_last(),
    {
        &self.parent
    }

    pub fn path(&self) -> (r: String)
        ensures
            r@ == join_slash(self@),
        decreases self,
    {
        proof {
            use_type_invariant(self);
        }
        let mut s = self.parent.path();
        s.append("/");
        s.append(self.id.as_str());
        proof {
            reveal_strlit("/");
            lemma_join_push(self.parent@, self.id@);
        }
        s
    }

    pub fn root(&self) -> (r: &RootPath)
        ensures
            r@ == self@.subrange(0, 5),
        decreases self,
    {
        proof {
            use_type_invariant(self);
        }
        let r = self.parent.root();
        assert(self@.subrange(0, 5) =~= self.parent@.subrange(0, 5));
        r
    }

    /// Parses an absolute path to a collection.
    pub fn from_str(s: &str) -> (r: Result<CollectionPath, Error>)
        ensures
            r is Ok <==> parses(s@) && depth(split_slash(s@)) % 2 == 1,
            r matches Ok(p) ==> p@ == split_slash(s@),
            r matches Err(e) ==> e == (if !parses(s@) {
                path_error(s@)
            } else {
                Error::InvalidCollectionPath
            }),
    {
        match from_str(s) {
            Ok(Path::Collection(p)) => Ok(p),
            Ok(_) => Err(Error::InvalidCollectionPath),
            Err(e) => Err(e),
        }
    }
}

impl DocumentPath {
    /// The sub-collection `collection_id` of this document; refused unless
    /// the identifier meets the collection grammar.
    pub fn collection(self, collection_id: String) -> (r: Result<CollectionPath, Error>)
        ensures
            r is Ok <==> valid_collection_id(collection_id@),
            r matches Ok(c) ==> c@ == self@.push(collection_id@),
            r matches Err(e) ==> e == Error::InvalidCollectionId,
    {
        proof {
            use_type_invariant(&self);
        }
        if CollectionId::from_str(collection_id.as_str()).is_err() {
            return Err(Error::InvalidCollectionId);
        }
        proof {
            lemma_extend(self@, collection_id@);
        }
        Ok(CollectionPath { id: collection_id, parent: Box::new(Path::Document(self)) })
    }

    pub fn id(&self) -> (r: &str)
        ensures
            r@ == self@.last(),
    {
        self.id.as_str()
    }

    pub fn parent(&self) -> (r: &CollectionPath)
        ensures
            r@ == self@.drop_last(),
    {
        &self.parent
    }

    pub fn path(&self) -> (r: String)
        ensures
            r@ == join_slash(self@),
        decreases self,
    {
        proof {
            use_type_invariant(self);
            use_type_invariant(&self.parent);
        }
        let mut s = self.parent.path();
        s.append("/");
        s.append(self.id.as_str());
        proof {
            reveal_strlit("/");
            lemma_join_push(self.parent@, self.id@);
        }
        s
    }

    pub fn root(&self) -> (r: &RootPath)
        ensures
            r@ == self@.subrange(0, 5),
        decreases self,
    {
        proof {
            use_type_invariant(self);
            use_type_invariant(&self.parent);
        }
        let r = self.parent.root();
        assert(self@.subrange(0, 5) =~= self.parent@.subrange(0, 5));
        r
    }

    /// Parses an absolute path to a document.
    pub fn from_str(s: &str) -> (r: Result<DocumentPath, Error>)
        ensures
            r is Ok <==> parses(s@) && depth(split_slash(s@)) >= 2 && depth(split_slash(s@)) % 2
                == 0,
            r matches Ok(p) ==> p@ == split_slash(s@),
            r matches Err(e) ==> e == (if !parses(s@) {
                path_error(s@)
            } else {
                Error::InvalidDocumentPath
            }),
    {
        match from_str(s) {
            Ok(Path::Document(p)) => Ok(p),
            Ok(_) => Err(Error::InvalidDocumentPath),
            Err(e) => Err(e),
        }
    }
}

impl RootPath {
    /// The root of database `database_id` in project `project_id`; refused
    /// unless both identifiers meet their grammars.
    pub fn new(project_id: String, database_id: String) -> (r: Result<RootPath, Error>)
        ensures
            r is Ok <==> valid_project_id(project_id@) && valid_database_id(database_id@),
            r matches Ok(p) ==> p@ == root_segments(project_id@, database_id@),
            r matches Err(e) ==> e == Error::InvalidRootPath,
    {
        if ProjectId::from_str(project_id.as_str()).is_err() || DatabaseId::from_str(
            database_id.as_str(),
        ).is_err() {
            return Err(Error::InvalidRootPath);
        }
        let r = RootPath { database_id, project_id };
        proof {
            assert(relative(r@) =~= Seq::<Seq<char>>::empty());
        }
        Ok(r)
    }

    /// The collection `collection_id` at the top of this database; refused
    /// unless the identifier meets the collection grammar.
    pub fn collection(self, collection_id: String) -> (r: Result<CollectionPath, Error>)
        ensures
            r is Ok <==> valid_collection_id(collection_id@),
            r matches Ok(c) ==> c@ == self@.push(collection_id@),
            r matches Err(e) ==> e == Error::InvalidCollectionId,
    {
        proof {
            use_type_invariant(&self);
        }
        if CollectionId::from_str(collection_id.as_str()).is_err() {
            return Err(Error::InvalidCollectionId);
        }
        proof {
            lemma_extend(self@, collection_id@);
        }
        Ok(CollectionPath { id: collection_id, parent: Box::new(Path::Root(self)) })
    }

    pub fn database_id(&self) -> (r: &str)
        ensures
            r@ == self@[3],
            valid_database_id(r@),
    {
        proof {
            use_type_invariant(self);
        }
        self.database_id.as_str()
    }

    /// `projects/{project_id}/databases/{database_id}`.
    pub fn database_name(&self) -> (r: String)
        ensures
            r@ == join_slash(self@.subrange(0, 4)),
    {
        database_string(self.project_id.as_str(), self.database_id.as_str())
    }

    /// `projects/{project_id}/databases/{database_id}/documents`.
    pub fn path(&self) -> (r: String)
        ensures
            r@ == join_slash(self@),
    {
        root_string(self.project_id.as_str(), self.database_id.as_str())
    }

    pub fn project_id(&self) -> (r: &str)
        ensures
            r@ == self@[1],
            valid_project_id(r@),
    {
        proof {
            use_type_invariant(self);
        }
        self.project_id.as_str()
    }

    /// Parses the root of a database.
    pub fn from_str(s: &str) -> (r: Result<RootPath, Error>)
        ensures
            r is Ok <==> parses(s@) && depth(split_slash(s@)) == 0,
            r matches Ok(p) ==> p@ == split_slash(s@),
            r matches Err(e) ==> e == (if !parses(s@) {
                path_error(s@)
            } else {
                Error::InvalidRootPath
            }),
    {
        match from_str(s) {
            Ok(Path::Root(p)) => Ok(p),
            Ok(_) => Err(Error::InvalidRootPath),
            Err(e) => Err(e),
        }
    }
}

/// Parses an absolute path: the root, then collection and document segments
/// in turn, each held to its grammar.
pub fn from_str(s: &str) -> (r: Result<Path, Error>)
    ensures
        r is Ok <==> parses(s@),
        r matches Ok(p) ==> p@ == split_slash(s@) && kind_matches(p),
        r matches Err(e) ==> e == path_error(s@),
{
    if byte_length(s) > MAX_NAME_BYTES {
        return Err(Error::TooLong);
    }
    let parts = split_on_slash(s);
    let ghost segs = views(parts@);
    if parts.len() < ROOT_SEGMENTS || !root_tokens_match(&parts) {
        return Err(Error::InvalidRootPath);
    }
    proof {
        assert(segs[1] == parts@[1]@);
        assert(segs[3] == parts@[3]@);
    }
    let root = match RootPath::new(parts[1].clone(), parts[3].clone()) {
        Ok(r) => r,
        Err(e) => {
            return Err(e);
        },
    };
    let mut path = Path::Root(root);
    let mut i: usize = ROOT_SEGMENTS;
    let ghost rest = relative(segs);
    proof {
        assert(path@ =~= segs.subrange(0, 5));
    }
    path.kind_agrees();
    while i < parts.len()
        invariant
            segs == views(parts@),
            segs == split_slash(s@),
            byte_len(s@) <= MAX_NAME_BYTES,
            rest == relative(segs),
            segs.len() >= 5,
            root_error(segs) is None,
            5 <= i <= parts@.len(),
            path@ == segs.subrange(0, i as int),
            kind_matches(path),
            forall|j: int| 0 <= j < i - 5 ==> #[trigger] segment_ok(rest, j),
            first_bad_from(rest, 0) == first_bad_from(rest, i - 5),
        decreases parts.len() - i,
    {
        let id = parts[i].clone();
        let ghost k = i - 5;
        proof {
            assert(segs[i as int] == id@);
            assert(rest[k] == id@);
            crate::paths::lemma_first_bad_bounds(rest, k);
        }
        let next = match path {
            Path::Collection(p) => match p.doc(id) {
                Ok(d) => Path::Document(d),
                Err(e) => {
                    assert(!segment_ok(rest, k));
                    return Err(e);
                },
            },
            Path::Document(p) => match p.collection(id) {
                Ok(c) => Path::Collection(c),
                Err(e) => {
                    assert(!segment_ok(rest, k));
                    return Err(e);
                },
            },
            Path::Root(p) => match p.collection(id) {
                Ok(c) => Path::Collection(c),
                Err(e) => {
                    assert(!segment_ok(rest, k));
                    return Err(e);
                },
            },
        };
        path = next;
        proof {
            assert(segment_ok(rest, k));
            assert(path@ =~= segs.subrange(0, i + 1));
        }
        path.kind_agrees();
        i = i + 1;
    }
    proof {
        assert(segs.subrange(0, segs.len() as int) =~= segs);
        assert forall|j: int| 0 <= j < rest.len() implies #[trigger] segment_ok(rest, j) by {}
    }
    Ok(path)
}

} // verus!

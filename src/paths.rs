use vstd::prelude::*;

use crate::error::Error;
use crate::ids::{CollectionId, DocumentId, valid_collection_id, valid_document_id};
use crate::segments::{join_slash, split_on_slash, split_slash, views};

verus! {

/// Segment `i` of a relative path meets its grammar: collection identifiers
/// stand at even positions, document identifiers at odd ones.
pub open spec fn segment_ok(segs: Seq<Seq<char>>, i: int) -> bool {
    if i % 2 == 0 {
        valid_collection_id(segs[i])
    } else {
        valid_document_id(segs[i])
    }
}

pub open spec fn all_segments_ok(segs: Seq<Seq<char>>) -> bool {
    forall|i: int| 0 <= i < segs.len() ==> #[trigger] segment_ok(segs, i)
}

/// The segments of a collection path: an odd number, alternating kinds.
pub open spec fn collection_segments(segs: Seq<Seq<char>>) -> bool {
    segs.len() % 2 == 1 && all_segments_ok(segs)
}

/// The segments of a document path: a positive even number, alternating kinds.
pub open spec fn document_segments(segs: Seq<Seq<char>>) -> bool {
    segs.len() >= 2 && segs.len() % 2 == 0 && all_segments_ok(segs)
}

/// Position of the first segment at or after `i` that breaks its grammar, or
/// the number of segments when there is none.
pub open spec fn first_bad_from(segs: Seq<Seq<char>>, i: int) -> int
    decreases segs.len() - i,
{
    if i < 0 || i >= segs.len() {
        segs.len() as int
    } else if !segment_ok(segs, i) {
        i
    } else {
        first_bad_from(segs, i + 1)
    }
}

/// The error reported for a segment that breaks its grammar at position `i`.
pub open spec fn segment_error(i: int) -> Error {
    if i % 2 == 0 {
        Error::CollectionId
    } else {
        Error::DocumentId
    }
}

/// The error for segments of the right count of which one breaks its grammar:
/// the kind of the first such segment.
pub open spec fn first_segment_error(segs: Seq<Seq<char>>) -> Error {
    segment_error(first_bad_from(segs, 0))
}

pub(crate) proof fn lemma_first_bad_bounds(segs: Seq<Seq<char>>, i: int)
    requires
        0 <= i <= segs.len(),
    ensures
        i <= first_bad_from(segs, i) <= segs.len(),
        first_bad_from(segs, i) < segs.len() ==> !segment_ok(segs, first_bad_from(segs, i)),
        first_bad_from(segs, i) == segs.len() <==> (forall|j: int|
            i <= j < segs.len() ==> #[trigger] segment_ok(segs, j)),
    decreases segs.len() - i,
{
    if i < segs.len() {
        lemma_first_bad_bounds(segs, i + 1);
    }
}

pub(crate) proof fn lemma_push_ok(segs: Seq<Seq<char>>, x: Seq<char>)
    requires
        all_segments_ok(segs),
        segment_ok(segs.push(x), segs.len() as int),
    ensures
        all_segments_ok(segs.push(x)),
{
    let t = segs.push(x);
    assert forall|i: int| 0 <= i < t.len() implies #[trigger] segment_ok(t, i) by {
        if i < segs.len() {
            assert(segment_ok(segs, i));
            assert(t[i] == segs[i]);
        }
    }
}

/// A path to a collection: a collection identifier under an optional parent
/// document.
#[derive(Debug, PartialEq, Eq, Hash, PartialOrd, Ord)]
pub struct CollectionPath {
    document_path: Option<DocumentPath>,
    collection_id: CollectionId,
}

/// A path to a document: a document identifier under a collection.
#[derive(Debug, PartialEq, Eq, Hash, PartialOrd, Ord)]
pub struct DocumentPath {
    collection_path: Box<CollectionPath>,
    document_id: DocumentId,
}

/// The segments of an optional parent document, none for a top-level
/// collection.
pub open spec fn parent_segments(parent: Option<DocumentPath>) -> Seq<Seq<char>> {
    match parent {
        Some(d) => d@,
        None => Seq::empty(),
    }
}

impl CollectionPath {
    pub closed spec fn segments(self) -> Seq<Seq<char>>
        decreases self,
    {
        match self.document_path {
            Some(d) => d.segments().push(self.collection_id@),
            None => seq![self.collection_id@],
        }
    }

    #[verifier::type_invariant]
    pub(crate) open spec fn inv(self) -> bool {
        collection_segments(self@)
    }
}

impl DocumentPath {
    pub closed spec fn segments(self) -> Seq<Seq<char>>
        decreases self,
    {
        self.collection_path.segments().push(self.document_id@)
    }

    #[verifier::type_invariant]
    pub(crate) open spec fn inv(self) -> bool {
        document_segments(self@)
    }
}

impl Clone for CollectionPath {
    fn clone(&self) -> (r: Self)
        ensures
            r@ == self@,
        decreases self,
    {
        proof {
            use_type_invariant(self);
        }
        let document_path = match &self.document_path {
            Some(d) => Some(d.clone()),
            None => None,
        };
        CollectionPath { document_path, collection_id: self.collection_id.clone() }
    }
}

impl Clone for DocumentPath {
    fn clone(&self) -> (r: Self)
        ensures
            r@ == self@,
        decreases self,
    {
        proof {
            use_type_invariant(self);
        }
        let collection_path = (*self.collection_path).clone();
        DocumentPath {
            collection_path: Box::new(collection_path),
            document_id: self.document_id.clone(),
        }
    }
}

impl View for CollectionPath {
    type V = Seq<Seq<char>>;

    open spec fn view(&self) -> Seq<Seq<char>> {
        self.segments()
    }
}

impl View for DocumentPath {
    type V = Seq<Seq<char>>;

    open spec fn view(&self) -> Seq<Seq<char>> {
        self.segments()
    }
}

impl CollectionPath {
    /// The collection `collection_id` under `parent`, or at the top level.
    pub fn new(parent: Option<DocumentPath>, collection_id: CollectionId) -> (r: CollectionPath)
        ensures
            r@ == parent_segments(parent).push(collection_id@),
    {
        proof {
            use_type_invariant(&collection_id);
        }
        match parent {
            Some(d) => {
                proof {
                    use_type_invariant(&d);
                    lemma_push_ok(d@, collection_id@);
                }
                CollectionPath { document_path: Some(d), collection_id }
            },
            None => {
                let r = CollectionPath { document_path: None, collection_id };
                proof {
                    assert(r@ =~= Seq::<Seq<char>>::empty().push(collection_id@));
                    lemma_push_ok(Seq::empty(), collection_id@);
                }
                r
            },
        }
    }

    /// The document `document_id` in this collection.
    pub fn doc(self, document_id: &str) -> (r: Result<DocumentPath, Error>)
        ensures
            r is Ok <==> valid_document_id(document_id@),
            r matches Ok(d) ==> d@ == self@.push(document_id@),
            r matches Err(e) ==> e == Error::DocumentId,
    {
        match DocumentId::from_str(document_id) {
            Ok(id) => Ok(DocumentPath::new(self, id)),
            Err(e) => Err(e),
        }
    }

    /// The parent document, none for a top-level collection.
    pub fn parent(self) -> (r: Option<DocumentPath>)
        ensures
            self@.len() == 1 ==> r is None,
            self@.len() > 1 ==> (r matches Some(d) && d@ == self@.drop_last()),
    {
        proof {
            use_type_invariant(&self);
        }
        self.document_path
    }

    /// The last segment: this collection's own identifier.
    pub fn collection_id(&self) -> (r: &CollectionId)
        ensures
            r@ == self@.last(),
    {
        &self.collection_id
    }

    /// The segments joined by `/`, first segment first.
    pub fn to_string(&self) -> (r: String)
        ensures
            r@ == join_slash(self@),
        decreases self,
    {
        match &self.document_path {
            Some(d) => {
                proof {
                    use_type_invariant(d);
                }
                let mut s = d.to_string();
                s.append("/");
                s.append(self.collection_id.as_str());
                proof {
                    reveal_strlit("/");
                    let segs = self@;
                    assert(segs.drop_last() =~= d@);
                }
                s
            },
            None => self.collection_id.to_string(),
        }
    }

    /// Parses a slash-separated collection path.
    pub fn from_str(s: &str) -> (r: Result<CollectionPath, Error>)
        ensures
            r is Ok <==> collection_segments(split_slash(s@)),
            r matches Ok(p) ==> p@ == split_slash(s@) && join_slash(p@) == s@,
            r matches Err(e) ==> e == (if split_slash(s@).len() % 2 == 0 {
                Error::SegmentCount
            } else {
                first_segment_error(split_slash(s@))
            }),
    {
        let parts = split_on_slash(s);
        let ghost segs = views(parts@);
        proof {
            lemma_first_bad_bounds(segs, 0);
            crate::segments::lemma_join_split(s@);
        }
        if parts.len() % 2 == 0 {
            return Err(Error::SegmentCount);
        }
        let r = build_collection(&parts, parts.len());
        proof {
            assert(segs.subrange(0, segs.len() as int) =~= segs);
        }
        r
    }
}

/// Parses `parts[0..end]` as the segments of a collection path, reporting
/// the first segment that breaks its grammar.
pub(crate) fn build_collection(parts: &Vec<String>, end: usize) -> (r: Result<
    CollectionPath,
    Error,
>)
    requires
        end % 2 == 1,
        end <= parts@.len(),
    ensures
        r is Ok <==> (forall|j: int| 0 <= j < end ==> #[trigger] segment_ok(views(parts@), j)),
        r matches Ok(p) ==> p@ == views(parts@).subrange(0, end as int),
        r matches Err(e) ==> first_bad_from(views(parts@), 0) < end && e == first_segment_error(
            views(parts@),
        ),
{
    let ghost segs = views(parts@);
    proof {
        lemma_first_bad_bounds(segs, 0);
    }
    let first = match CollectionId::from_str(parts[0].as_str()) {
        Ok(c) => c,
        Err(e) => {
            assert(!segment_ok(segs, 0));
            return Err(e);
        },
    };
    let mut path = CollectionPath::new(None, first);
    let mut i: usize = 1;
    proof {
        assert(path@ =~= segs.subrange(0, 1));
    }
    while i < end
        invariant
            segs == views(parts@),
            end % 2 == 1,
            end <= parts@.len(),
            i % 2 == 1,
            i <= end,
            path@ == segs.subrange(0, i as int),
            forall|j: int| 0 <= j < i ==> #[trigger] segment_ok(segs, j),
            first_bad_from(segs, 0) == first_bad_from(segs, i as int),
        decreases end - i,
    {
        let d = match DocumentId::from_str(parts[i].as_str()) {
            Ok(d) => d,
            Err(e) => {
                assert(!segment_ok(segs, i as int));
                return Err(e);
            },
        };
        let doc = DocumentPath::new(path, d);
        proof {
            assert(segment_ok(segs, i as int));
        }
        let c = match CollectionId::from_str(parts[i + 1].as_str()) {
            Ok(c) => c,
            Err(e) => {
                assert(!segment_ok(segs, i + 1));
                assert(first_bad_from(segs, i as int) == first_bad_from(segs, i + 1));
                return Err(e);
            },
        };
        path = CollectionPath::new(Some(doc), c);
        proof {
            assert(segment_ok(segs, i + 1));
            assert(path@ =~= segs.subrange(0, i + 2));
            assert(first_bad_from(segs, i as int) == first_bad_from(segs, i + 1));
            assert(first_bad_from(segs, i + 1) == first_bad_from(segs, i + 2));
        }
        i = i + 2;
    }
    Ok(path)
}

impl DocumentPath {
    /// The document `document_id` in the collection `collection_path`.
    pub fn new(collection_path: CollectionPath, document_id: DocumentId) -> (r: DocumentPath)
        ensures
            r@ == collection_path@.push(document_id@),
    {
        proof {
            use_type_invariant(&collection_path);
            use_type_invariant(&document_id);
            lemma_push_ok(collection_path@, document_id@);
        }
        DocumentPath { collection_path: Box::new(collection_path), document_id }
    }

    /// The sub-collection `collection_id` of this document.
    pub fn collection(self, collection_id: &str) -> (r: Result<CollectionPath, Error>)
        ensures
            r is Ok <==> valid_collection_id(collection_id@),
            r matches Ok(c) ==> c@ == self@.push(collection_id@),
            r matches Err(e) ==> e == Error::CollectionId,
    {
        match CollectionId::from_str(collection_id) {
            Ok(id) => Ok(CollectionPath::new(Some(self), id)),
            Err(e) => Err(e),
        }
    }

    /// The collection that holds this document.
    pub fn parent(self) -> (r: CollectionPath)
        ensures
            r@ == self@.drop_last(),
    {
        *self.collection_path
    }

    /// The identifier of the collection that holds this document.
    pub fn collection_id(&self) -> (r: &CollectionId)
        ensures
            r@ == self@[self@.len() - 2],
    {
        proof {
            use_type_invariant(self);
            use_type_invariant(&*self.collection_path);
        }
        self.collection_path.collection_id()
    }

    /// The last segment: this document's own identifier.
    pub fn document_id(&self) -> (r: &DocumentId)
        ensures
            r@ == self@.last(),
    {
        &self.document_id
    }

    /// The segments joined by `/`, first segment first.
    pub fn to_string(&self) -> (r: String)
        ensures
            r@ == join_slash(self@),
        decreases self,
    {
        proof {
            use_type_invariant(self);
            use_type_invariant(&*self.collection_path);
        }
        let mut s = self.collection_path.to_string();
        s.append("/");
        s.append(self.document_id.as_str());
        proof {
            reveal_strlit("/");
            assert(self@.drop_last() =~= self.collection_path@);
        }
        s
    }

    /// Parses a slash-separated document path.
    pub fn from_str(s: &str) -> (r: Result<DocumentPath, Error>)
        ensures
            r is Ok <==> document_segments(split_slash(s@)),
            r matches Ok(p) ==> p@ == split_slash(s@) && join_slash(p@) == s@,
            r matches Err(e) ==> e == (if split_slash(s@).len() % 2 == 1 {
                Error::SegmentCount
            } else {
                first_segment_error(split_slash(s@))
            }),
    {
        let parts = split_on_slash(s);
        let ghost segs = views(parts@);
        proof {
            lemma_first_bad_bounds(segs, 0);
            crate::segments::lemma_join_split(s@);
        }
        if parts.len() % 2 == 1 {
            return Err(Error::SegmentCount);
        }
        build_document(&parts)
    }
}

/// Parses all of `parts` as the segments of a document path, reporting the
/// first segment that breaks its grammar.
pub(crate) fn build_document(parts: &Vec<String>) -> (r: Result<DocumentPath, Error>)
    requires
        parts@.len() >= 2,
        parts@.len() % 2 == 0,
    ensures
        r is Ok <==> all_segments_ok(views(parts@)),
        r matches Ok(p) ==> p@ == views(parts@),
        r matches Err(e) ==> e == first_segment_error(views(parts@)),
{
    let ghost segs = views(parts@);
    proof {
        lemma_first_bad_bounds(segs, 0);
    }
    let last = parts.len() - 1;
    let c = match build_collection(parts, last) {
        Ok(c) => c,
        Err(e) => {
            return Err(e);
        },
    };
    proof {
        lemma_first_bad_bounds(segs, last as int);
        lemma_first_bad_prefix_ok(segs, last as int);
    }
    match DocumentId::from_str(parts[last].as_str()) {
        Ok(d) => {
            let p = DocumentPath::new(c, d);
            proof {
                assert(p@ =~= segs);
                assert(segment_ok(segs, last as int));
            }
            Ok(p)
        },
        Err(e) => {
            assert(!segment_ok(segs, last as int));
            Err(e)
        },
    }
}

impl<'a> vstd::std_specs::convert::TryFromSpecImpl<&'a str> for CollectionPath {
    open spec fn obeys_try_from_spec() -> bool {
        false
    }

    open spec fn try_from_spec(v: &'a str) -> Result<CollectionPath, Error> {
        arbitrary()
    }
}

impl<'a> TryFrom<&'a str> for CollectionPath {
    type Error = Error;

    fn try_from(s: &'a str) -> Result<CollectionPath, Error> {
        CollectionPath::from_str(s)
    }
}

impl vstd::std_specs::convert::TryFromSpecImpl<String> for CollectionPath {
    open spec fn obeys_try_from_spec() -> bool {
        false
    }

    open spec fn try_from_spec(v: String) -> Result<CollectionPath, Error> {
        arbitrary()
    }
}

impl TryFrom<String> for CollectionPath {
    type Error = Error;

    fn try_from(s: String) -> Result<CollectionPath, Error> {
        CollectionPath::from_str(s.as_str())
    }
}

impl<'a> vstd::std_specs::convert::TryFromSpecImpl<&'a str> for DocumentPath {
    open spec fn obeys_try_from_spec() -> bool {
        false
    }

    open spec fn try_from_spec(v: &'a str) -> Result<DocumentPath, Error> {
        arbitrary()
    }
}

impl<'a> TryFrom<&'a str> for DocumentPath {
    type Error = Error;

    fn try_from(s: &'a str) -> Result<DocumentPath, Error> {
        DocumentPath::from_str(s)
    }
}

impl vstd::std_specs::convert::TryFromSpecImpl<String> for DocumentPath {
    open spec fn obeys_try_from_spec() -> bool {
        false
    }

    open spec fn try_from_spec(v: String) -> Result<DocumentPath, Error> {
        arbitrary()
    }
}

impl TryFrom<String> for DocumentPath {
    type Error = Error;

    fn try_from(s: String) -> Result<DocumentPath, Error> {
        DocumentPath::from_str(s.as_str())
    }
}

/// When every segment before `k` meets its grammar, the first bad one is at
/// or after `k`.
proof fn lemma_first_bad_prefix_ok(segs: Seq<Seq<char>>, k: int)
    requires
        0 <= k <= segs.len(),
        forall|j: int| 0 <= j < k ==> #[trigger] segment_ok(segs, j),
    ensures
        first_bad_from(segs, 0) == first_bad_from(segs, k),
{
    lemma_first_bad_prefix_ok_from(segs, 0, k);
}

proof fn lemma_first_bad_prefix_ok_from(segs: Seq<Seq<char>>, i: int, k: int)
    requires
        0 <= i <= k <= segs.len(),
        forall|j: int| 0 <= j < k ==> #[trigger] segment_ok(segs, j),
    ensures
        first_bad_from(segs, i) == first_bad_from(segs, k),
    decreases k - i,
{
    if i < k {
        assert(segment_ok(segs, i));
        lemma_first_bad_prefix_ok_from(segs, i + 1, k);
    }
}

} // verus!

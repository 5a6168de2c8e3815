use vstd::prelude::*;

use crate::error::Error;
use crate::segments::{byte_len, byte_length, chars_of, slash_free};

verus! {

pub open spec fn is_lower(c: char) -> bool {
    'a' <= c <= 'z'
}

pub open spec fn is_digit(c: char) -> bool {
    '0' <= c <= '9'
}

/// Lower-case ASCII letter, digit or hyphen.
pub open spec fn id_char(c: char) -> bool {
    is_lower(c) || is_digit(c) || c == '-'
}

pub open spec fn all_id_chars(s: Seq<char>) -> bool {
    forall|i: int| 0 <= i < s.len() ==> id_char(#[trigger] s[i])
}

/// `w` occurs in `s` at some position.
pub open spec fn contains_word(s: Seq<char>, w: Seq<char>) -> bool {
    exists|i: int| 0 <= i && i + w.len() <= s.len() && #[trigger] s.subrange(i, i + w.len()) == w
}

pub open spec fn word_google() -> Seq<char> {
    seq!['g', 'o', 'o', 'g', 'l', 'e']
}

pub open spec fn word_null() -> Seq<char> {
    seq!['n', 'u', 'l', 'l']
}

pub open spec fn word_undefined() -> Seq<char> {
    seq!['u', 'n', 'd', 'e', 'f', 'i', 'n', 'e', 'd']
}

pub open spec fn word_ssl() -> Seq<char> {
    seq!['s', 's', 'l']
}

/// The sentinel name of a project's default database.
pub open spec fn default_database() -> Seq<char> {
    seq!['(', 'd', 'e', 'f', 'a', 'u', 'l', 't', ')']
}

/// Grammar of a project identifier.
pub open spec fn valid_project_id(s: Seq<char>) -> bool {
    &&& 6 <= byte_len(s) <= 30
    &&& all_id_chars(s)
    &&& is_lower(s[0])
    &&& s.last() != '-'
    &&& !contains_word(s, word_google())
    &&& !contains_word(s, word_null())
    &&& !contains_word(s, word_undefined())
    &&& !contains_word(s, word_ssl())
}

/// Grammar of a database identifier.
pub open spec fn valid_database_id(s: Seq<char>) -> bool {
    ||| s == default_database()
    ||| {
        &&& 4 <= byte_len(s) <= 63
        &&& all_id_chars(s)
        &&& is_lower(s[0])
        &&& (is_lower(s.last()) || is_digit(s.last()))
    }
}

pub open spec fn dunder_start(s: Seq<char>) -> bool {
    s.len() >= 2 && s[0] == '_' && s[1] == '_'
}

pub open spec fn dunder_end(s: Seq<char>) -> bool {
    s.len() >= 2 && s[s.len() - 2] == '_' && s[s.len() - 1] == '_'
}

/// Most bytes that a collection or document identifier may take.
pub const MAX_ID_BYTES: usize = 1500;

/// Grammar shared by collection and document identifiers.
pub open spec fn valid_segment_id(s: Seq<char>) -> bool {
    &&& byte_len(s) <= MAX_ID_BYTES
    &&& slash_free(s)
    &&& s != seq!['.']
    &&& s != seq!['.', '.']
    &&& !(dunder_start(s) && dunder_end(s))
}

pub open spec fn valid_collection_id(s: Seq<char>) -> bool {
    valid_segment_id(s)
}

pub open spec fn valid_document_id(s: Seq<char>) -> bool {
    valid_segment_id(s)
}

fn matches_at(s: &Vec<char>, w: &Vec<char>, i: usize) -> (r: bool)
    requires
        i + w@.len() <= s@.len(),
    ensures
        r == (s@.subrange(i as int, i + w@.len()) == w@),
{
    let mut k: usize = 0;
    while k < w.len()
        invariant
            0 <= k <= w@.len(),
            i + w@.len() <= s@.len(),
            forall|j: int| 0 <= j < k ==> s@[i + j] == w@[j],
        decreases w.len() - k,
    {
        assert(i + k < s.len());
        if s[i + k] != w[k] {
            assert(s@.subrange(i as int, i + w@.len())[k as int] != w@[k as int]);
            return false;
        }
        k = k + 1;
    }
    assert(s@.subrange(i as int, i + w@.len()) =~= w@);
    true
}

fn contains_exec(s: &Vec<char>, w: &Vec<char>) -> (r: bool)
    ensures
        r == contains_word(s@, w@),
{
    if w.len() > s.len() {
        return false;
    }
    let mut i: usize = 0;
    let last = s.len() - w.len();
    while i <= last
        invariant
            w@.len() <= s@.len(),
            last == s@.len() - w@.len(),
            forall|j: int| 0 <= j < i ==> #[trigger] s@.subrange(j, j + w@.len()) != w@,
        decreases s.len() - i,
    {
        if matches_at(s, w, i) {
            return true;
        }
        if i == last {
            return false;
        }
        i = i + 1;
    }
    false
}

fn all_id_chars_exec(cs: &Vec<char>) -> (r: bool)
    ensures
        r == all_id_chars(cs@),
{
    let mut i: usize = 0;
    while i < cs.len()
        invariant
            0 <= i <= cs@.len(),
            forall|j: int| 0 <= j < i ==> id_char(#[trigger] cs@[j]),
        decreases cs.len() - i,
    {
        let c = cs[i];
        if !(('a' <= c && c <= 'z') || ('0' <= c && c <= '9') || c == '-') {
            return false;
        }
        i = i + 1;
    }
    true
}

fn same_chars(a: &Vec<char>, b: &Vec<char>) -> (r: bool)
    ensures
        r == (a@ == b@),
{
    if a.len() != b.len() {
        return false;
    }
    let r = matches_at(a, b, 0);
    assert(a@.subrange(0, b@.len() as int) =~= a@);
    r
}

fn is_valid_project_id(s: &str) -> (r: bool)
    ensures
        r == valid_project_id(s@),
{
    let n = byte_length(s);
    if n < 6 || n > 30 {
        return false;
    }
    let cs = chars_of(s);
    if cs.len() == 0 {
        return false;
    }
    if !all_id_chars_exec(&cs) {
        return false;
    }
    let first = cs[0];
    if !('a' <= first && first <= 'z') {
        return false;
    }
    if cs[cs.len() - 1] == '-' {
        return false;
    }
    let google = vec!['g', 'o', 'o', 'g', 'l', 'e'];
    let null = vec!['n', 'u', 'l', 'l'];
    let undefined = vec!['u', 'n', 'd', 'e', 'f', 'i', 'n', 'e', 'd'];
    let ssl = vec!['s', 's', 'l'];
    assert(google@ == word_google());
    assert(null@ == word_null());
    assert(undefined@ == word_undefined());
    assert(ssl@ == word_ssl());
    !(contains_exec(&cs, &google) || contains_exec(&cs, &null) || contains_exec(&cs, &undefined)
        || contains_exec(&cs, &ssl))
}

fn is_valid_database_id(s: &str) -> (r: bool)
    ensures
        r == valid_database_id(s@),
{
    let cs = chars_of(s);
    let sentinel = vec!['(', 'd', 'e', 'f', 'a', 'u', 'l', 't', ')'];
    assert(sentinel@ == default_database());
    if same_chars(&cs, &sentinel) {
        return true;
    }
    let n = byte_length(s);
    if n < 4 || n > 63 {
        return false;
    }
    if cs.len() == 0 {
        return false;
    }
    if !all_id_chars_exec(&cs) {
        return false;
    }
    let first = cs[0];
    if !('a' <= first && first <= 'z') {
        return false;
    }
    let last = cs[cs.len() - 1];
    ('a' <= last && last <= 'z') || ('0' <= last && last <= '9')
}

fn is_valid_segment_id(s: &str) -> (r: bool)
    ensures
        r == valid_segment_id(s@),
{
    if byte_length(s) > MAX_ID_BYTES {
        return false;
    }
    let cs = chars_of(s);
    let mut i: usize = 0;
    while i < cs.len()
        invariant
            0 <= i <= cs@.len(),
            cs@ == s@,
            byte_len(s@) <= MAX_ID_BYTES,
            forall|j: int| 0 <= j < i ==> cs@[j] != '/',
        decreases cs.len() - i,
    {
        if cs[i] == '/' {
            assert(cs@[i as int] == '/');
            assert(!slash_free(s@));
            return false;
        }
        i = i + 1;
    }
    let n = cs.len();
    if n == 1 && cs[0] == '.' {
        assert(cs@ =~= seq!['.']);
        return false;
    }
    if n == 2 && cs[0] == '.' && cs[1] == '.' {
        assert(cs@ =~= seq!['.', '.']);
        return false;
    }
    let starts = n >= 2 && cs[0] == '_' && cs[1] == '_';
    let ends = n >= 2 && cs[n - 2] == '_' && cs[n - 1] == '_';
    !(starts && ends)
}

/// The identifier of a project, valid by construction.
#[derive(Debug, PartialEq, Eq, Hash, PartialOrd, Ord)]
pub struct ProjectId {
    value: String,
}

impl Clone for ProjectId {
    fn clone(&self) -> (r: Self)
        ensures
            r@ == self@,
    {
        proof {
            use_type_invariant(self);
        }
        ProjectId { value: self.value.clone() }
    }
}

impl View for ProjectId {
    type V = Seq<char>;

    closed spec fn view(&self) -> Seq<char> {
        self.value@
    }
}

impl ProjectId {
    #[verifier::type_invariant]
    pub(crate) open spec fn inv(self) -> bool {
        valid_project_id(self@)
    }

    /// Accepts `s` exactly when it meets the project identifier grammar.
    pub fn from_str(s: &str) -> (r: Result<ProjectId, Error>)
        ensures
            r is Ok <==> valid_project_id(s@),
            r matches Ok(id) ==> id@ == s@,
            r matches Err(e) ==> e == Error::ProjectId,
    {
        if is_valid_project_id(s) {
            Ok(ProjectId { value: s.to_owned() })
        } else {
            Err(Error::ProjectId)
        }
    }

    pub fn to_string(&self) -> (r: String)
        ensures
            r@ == self@,
    {
        self.value.clone()
    }

    pub fn as_str(&self) -> (r: &str)
        ensures
            r@ == self@,
            valid_project_id(r@),
    {
        proof {
            use_type_invariant(self);
        }
        self.value.as_str()
    }
}

/// The identifier of a database within a project, valid by construction.
#[derive(Debug, PartialEq, Eq, Hash, PartialOrd, Ord)]
pub struct DatabaseId {
    value: String,
}

impl Clone for DatabaseId {
    fn clone(&self) -> (r: Self)
        ensures
            r@ == self@,
    {
        proof {
            use_type_invariant(self);
        }
        DatabaseId { value: self.value.clone() }
    }
}

impl View for DatabaseId {
    type V = Seq<char>;

    closed spec fn view(&self) -> Seq<char> {
        self.value@
    }
}

impl DatabaseId {
    #[verifier::type_invariant]
    pub(crate) open spec fn inv(self) -> bool {
        valid_database_id(self@)
    }

    /// Accepts `s` exactly when it meets the database identifier grammar.
    pub fn from_str(s: &str) -> (r: Result<DatabaseId, Error>)
        ensures
            r is Ok <==> valid_database_id(s@),
            r matches Ok(id) ==> id@ == s@,
            r matches Err(e) ==> e == Error::DatabaseId,
    {
        if is_valid_database_id(s) {
            Ok(DatabaseId { value: s.to_owned() })
        } else {
            Err(Error::DatabaseId)
        }
    }

    pub fn to_string(&self) -> (r: String)
        ensures
            r@ == self@,
    {
        self.value.clone()
    }

    pub fn as_str(&self) -> (r: &str)
        ensures
            r@ == self@,
            valid_database_id(r@),
    {
        proof {
            use_type_invariant(self);
        }
        self.value.as_str()
    }
}

/// The identifier of a collection, valid by construction.
#[derive(Debug, PartialEq, Eq, Hash, PartialOrd, Ord)]
pub struct CollectionId {
    value: String,
}

impl Clone for CollectionId {
    fn clone(&self) -> (r: Self)
        ensures
            r@ == self@,
    {
        proof {
            use_type_invariant(self);
        }
        CollectionId { value: self.value.clone() }
    }
}

impl View for CollectionId {
    type V = Seq<char>;

    closed spec fn view(&self) -> Seq<char> {
        self.value@
    }
}

impl CollectionId {
    #[verifier::type_invariant]
    pub(crate) open spec fn inv(self) -> bool {
        valid_collection_id(self@)
    }

    /// Accepts `s` exactly when it meets the collection identifier grammar.
    pub fn from_str(s: &str) -> (r: Result<CollectionId, Error>)
        ensures
            r is Ok <==> valid_collection_id(s@),
            r matches Ok(id) ==> id@ == s@,
            r matches Err(e) ==> e == Error::CollectionId,
    {
        if is_valid_segment_id(s) {
            Ok(CollectionId { value: s.to_owned() })
        } else {
            Err(Error::CollectionId)
        }
    }

    pub fn to_string(&self) -> (r: String)
        ensures
            r@ == self@,
    {
        self.value.clone()
    }

    pub fn as_str(&self) -> (r: &str)
        ensures
            r@ == self@,
            valid_collection_id(r@),
    {
        proof {
            use_type_invariant(self);
        }
        self.value.as_str()
    }
}

/// The identifier of a document, valid by construction.
#[derive(Debug, PartialEq, Eq, Hash, PartialOrd, Ord)]
pub struct DocumentId {
    value: String,
}

impl Clone for DocumentId {
    fn clone(&self) -> (r: Self)
        ensures
            r@ == self@,
    {
        proof {
            use_type_invariant(self);
        }
        DocumentId { value: self.value.clone() }
    }
}

impl View for DocumentId {
    type V = Seq<char>;

    closed spec fn view(&self) -> Seq<char> {
        self.value@
    }
}

impl DocumentId {
    #[verifier::type_invariant]
    pub(crate) open spec fn inv(self) -> bool {
        valid_document_id(self@)
    }

    /// Accepts `s` exactly when it meets the document identifier grammar.
    pub fn from_str(s: &str) -> (r: Result<DocumentId, Error>)
        ensures
            r is Ok <==> valid_document_id(s@),
            r matches Ok(id) ==> id@ == s@,
            r matches Err(e) ==> e == Error::DocumentId,
    {
        if is_valid_segment_id(s) {
            Ok(DocumentId { value: s.to_owned() })
        } else {
            Err(Error::DocumentId)
        }
    }

    pub fn to_string(&self) -> (r: String)
        ensures
            r@ == self@,
    {
        self.value.clone()
    }

    pub fn as_str(&self) -> (r: &str)
        ensures
            r@ == self@,
            valid_document_id(r@),
    {
        proof {
            use_type_invariant(self);
        }
        self.value.as_str()
    }
}

} // verus!

use vstd::prelude::*;

use crate::document::Timestamp;
use crate::error::Error;
use crate::names::{CollectionName, DatabaseName, DocumentName};
use crate::paths::{collection_segments, first_segment_error};
use crate::segments::{join_slash, split_slash};

verus! {

/// Most documents asked for in one page of a listing.
pub const PAGE_SIZE: i32 = 100;

/// What a write requires of the stored document for the commit to apply.
#[derive(Clone, Copy, Debug, PartialEq, Eq, Structural)]
pub enum Precondition {
    /// The document exists (`true`) or does not (`false`).
    Exists(bool),
    /// The document was last modified at exactly this time.
    UpdateTime(Timestamp),
}

/// One buffered change: store `fields` under `name`, or delete `name`.
#[derive(Debug)]
pub enum Operation<F> {
    Update { name: String, fields: F },
    Delete { name: String },
}

/// A buffered change with the condition the store checks before applying it.
#[derive(Debug)]
pub struct Write<F> {
    pub operation: Operation<F>,
    pub precondition: Precondition,
}

/// Everything a commit sends: the database, the transaction token and the
/// buffered writes in order.
#[derive(Debug)]
pub struct CommitRequest<F> {
    pub database: String,
    pub transaction: Vec<u8>,
    pub writes: Vec<Write<F>>,
}

/// Everything a rollback sends: the database and the transaction token.
#[derive(Debug)]
pub struct RollbackRequest {
    pub database: String,
    pub transaction: Vec<u8>,
}

/// Where a create call puts a document: the parent resource, the collection
/// identifier and the document identifier.
#[derive(Debug)]
pub struct CreateTarget {
    pub parent: String,
    pub collection_id: String,
    pub document_id: String,
}

/// What a listing asks for: the parent resource, the collection identifier
/// and the page size.
#[derive(Debug)]
pub struct ListTarget {
    pub parent: String,
    pub collection_id: String,
    pub page_size: i32,
}

/// What an update or a deletion of one document sends: its name, and the
/// condition that it was last modified at the time the caller read.
#[derive(Debug)]
pub struct GuardedTarget {
    pub name: String,
    pub precondition: Precondition,
}

/// A unit of work bound to a token that the store issued: writes are only
/// buffered here, and a transaction ends by being committed or rolled back.
#[derive(Debug)]
pub struct Transaction<F> {
    database_name: DatabaseName,
    token: Vec<u8>,
    writes: Vec<Write<F>>,
}

/// The next step once the caller's unit of work has finished.
#[derive(Debug)]
pub enum Settlement<F, E> {
    /// The work succeeded: send this commit.
    Commit(CommitRequest<F>),
    /// The work failed with the error kept here: send this rollback.
    Rollback(RollbackRequest, E),
}

/// A unit of work that failed, and what became of the rollback.
#[derive(Debug)]
pub enum TransactionError<S, E> {
    /// The work failed; the rollback went through.
    Callback(E),
    /// The work failed and the rollback failed too: the rollback's error,
    /// then the work's.
    Rollback(S, E),
}

/// The buffered write is an update of `name` with `fields` under `pre`.
pub open spec fn is_update<F>(w: Write<F>, name: Seq<char>, fields: F, pre: Precondition) -> bool {
    &&& w.operation matches Operation::Update { name: n, fields: f } && n@ == name && f == fields
    &&& w.precondition == pre
}

/// The buffered write is a deletion of `name` under `pre`.
pub open spec fn is_delete<F>(w: Write<F>, name: Seq<char>, pre: Precondition) -> bool {
    &&& w.operation matches Operation::Delete { name: n } && n@ == name
    &&& w.precondition == pre
}

impl<F> Transaction<F> {
    pub closed spec fn spec_database(&self) -> Seq<Seq<char>> {
        self.database_name@
    }

    pub closed spec fn spec_token(&self) -> Seq<u8> {
        self.token@
    }

    pub closed spec fn spec_writes(&self) -> Seq<Write<F>> {
        self.writes@
    }

    /// A transaction on `database_name` with the token the store issued and
    /// nothing buffered yet.
    pub fn new(database_name: DatabaseName, token: Vec<u8>) -> (r: Transaction<F>)
        ensures
            r.spec_database() == database_name@,
            r.spec_token() == token@,
            r.spec_writes().len() == 0,
    {
        Transaction { database_name, token, writes: Vec::new() }
    }

    pub fn token(&self) -> (r: &Vec<u8>)
        ensures
            r@ == self.spec_token(),
    {
        &self.token
    }

    pub fn writes(&self) -> (r: &Vec<Write<F>>)
        ensures
            r@ == self.spec_writes(),
    {
        &self.writes
    }

    /// Buffers the creation of `document_name` with `fields`, on condition
    /// that no document exists there yet.
    pub fn create(&mut self, document_name: &DocumentName, fields: F)
        ensures
            final(self).spec_database() == old(self).spec_database(),
            final(self).spec_token() == old(self).spec_token(),
            final(self).spec_writes().len() == old(self).spec_writes().len() + 1,
            final(self).spec_writes().drop_last() == old(self).spec_writes(),
            is_update(
                final(self).spec_writes().last(),
                join_slash(document_name@),
                fields,
                Precondition::Exists(false),
            ),
    {
        let name = document_name.to_string();
        self.writes.push(
            Write {
                operation: Operation::Update { name, fields },
                precondition: Precondition::Exists(false),
            },
        );
        assert(self.writes@.drop_last() =~= old(self).writes@);
    }

    /// Buffers the deletion of `document_name`, on condition that it was last
    /// modified at `current_update_time`.
    pub fn delete(&mut self, document_name: &DocumentName, current_update_time: Timestamp)
        ensures
            final(self).spec_database() == old(self).spec_database(),
            final(self).spec_token() == old(self).spec_token(),
            final(self).spec_writes().len() == old(self).spec_writes().len() + 1,
            final(self).spec_writes().drop_last() == old(self).spec_writes(),
            is_delete(
                final(self).spec_writes().last(),
                join_slash(document_name@),
                Precondition::UpdateTime(current_update_time),
            ),
    {
        let name = document_name.to_string();
        self.writes.push(
            Write {
                operation: Operation::Delete { name },
                precondition: Precondition::UpdateTime(current_update_time),
            },
        );
        assert(self.writes@.drop_last() =~= old(self).writes@);
    }

    /// Ends the transaction by committing every buffered write, in order.
    pub fn commit(self) -> (r: CommitRequest<F>)
        ensures
            r.database@ == join_slash(self.spec_database()),
            r.transaction@ == self.spec_token(),
            r.writes@ == self.spec_writes(),
    {
        CommitRequest {
            database: self.database_name.to_string(),
            transaction: self.token,
            writes: self.writes,
        }
    }

    /// Ends the transaction by discarding the buffered writes and releasing
    /// the token.
    pub fn rollback(self) -> (r: RollbackRequest)
        ensures
            r.database@ == join_slash(self.spec_database()),
            r.transaction@ == self.spec_token(),
    {
        RollbackRequest { database: self.database_name.to_string(), transaction: self.token }
    }
}

/// Decides how a transaction ends from the outcome of the caller's work:
/// commit on success, roll back and keep the error on failure.
pub fn settle<F, E>(transaction: Transaction<F>, outcome: Result<(), E>) -> (r: Settlement<F, E>)
    ensures
        outcome is Ok ==> (r matches Settlement::Commit(c) && c.database@ == join_slash(
            transaction.spec_database(),
        ) && c.transaction@ == transaction.spec_token() && c.writes@ == transaction.spec_writes()),
        outcome matches Err(e) ==> (r matches Settlement::Rollback(b, e2) && e2 == e
            && b.database@ == join_slash(transaction.spec_database()) && b.transaction@
            == transaction.spec_token()),
{
    match outcome {
        Ok(()) => Settlement::Commit(transaction.commit()),
        Err(e) => Settlement::Rollback(transaction.rollback(), e),
    }
}

/// The error reported for failed work, given what the rollback returned.
pub fn rollback_failure<S, E>(callback_error: E, rollback: Result<(), S>) -> (r: TransactionError<
    S,
    E,
>)
    ensures
        rollback is Ok ==> r == TransactionError::<S, E>::Callback(callback_error),
        rollback matches Err(s) ==> r == TransactionError::Rollback(s, callback_error),
{
    match rollback {
        Ok(()) => TransactionError::Callback(callback_error),
        Err(s) => TransactionError::Rollback(s, callback_error),
    }
}

/// The page token to hand back to the caller: none when the store sent an
/// empty one.
pub fn next_page_token(token: String) -> (r: Option<String>)
    ensures
        token@.len() == 0 ==> r is None,
        token@.len() > 0 ==> r == Some(token),
{
    if token.as_str().is_empty() {
        None
    } else {
        Some(token)
    }
}

/// gRPC status code of a missing document.
pub const CODE_NOT_FOUND: i32 = 5;

/// gRPC status code of a create whose document already exists.
pub const CODE_ALREADY_EXISTS: i32 = 6;

/// gRPC status code of a write whose precondition did not hold.
pub const CODE_FAILED_PRECONDITION: i32 = 9;

/// gRPC status code of a transaction aborted by a concurrent one.
pub const CODE_ABORTED: i32 = 10;

/// How a status reported by the store is to be read by a caller.
#[derive(Clone, Copy, Debug, PartialEq, Eq, Structural)]
pub enum StatusClass {
    /// The document addressed does not exist.
    NotFound,
    /// Another writer got there first: an existence or update-time
    /// precondition failed, or the transaction was aborted. Expected under
    /// contention; the caller may re-read and retry.
    Conflict,
    /// Anything else the store reported.
    Other,
}

pub open spec fn status_class(code: i32) -> StatusClass {
    if code == CODE_NOT_FOUND {
        StatusClass::NotFound
    } else if code == CODE_ALREADY_EXISTS || code == CODE_FAILED_PRECONDITION || code
        == CODE_ABORTED {
        StatusClass::Conflict
    } else {
        StatusClass::Other
    }
}

/// Sorts a status code of the store into not-found, conflict and the rest.
pub fn classify_status(code: i32) -> (r: StatusClass)
    ensures
        r == status_class(code),
{
    if code == CODE_NOT_FOUND {
        StatusClass::NotFound
    } else if code == CODE_ALREADY_EXISTS || code == CODE_FAILED_PRECONDITION || code
        == CODE_ABORTED {
        StatusClass::Conflict
    } else {
        StatusClass::Other
    }
}

/// Holds the root of one database and plans the requests sent to it.
#[derive(Debug)]
pub struct Client {
    database_name: DatabaseName,
}

impl Client {
    pub closed spec fn spec_database(&self) -> Seq<Seq<char>> {
        self.database_name@
    }

    pub fn new(database_name: DatabaseName) -> (r: Client)
        ensures
            r.spec_database() == database_name@,
    {
        Client { database_name }
    }

    pub fn database_name(&self) -> (r: &DatabaseName)
        ensures
            r@ == self.spec_database(),
    {
        &self.database_name
    }

    /// The database root as sent in requests.
    pub fn database(&self) -> (r: String)
        ensures
            r@ == join_slash(self.spec_database()),
    {
        self.database_name.to_string()
    }

    /// The collection at `collection_path`, relative to this database.
    pub fn collection(&self, collection_path: &str) -> (r: Result<CollectionName, Error>)
        ensures
            r is Ok <==> collection_segments(split_slash(collection_path@)),
            r matches Ok(c) ==> c@ == self.spec_database() + split_slash(collection_path@),
            r matches Err(e) ==> e == (if split_slash(collection_path@).len() % 2 == 0 {
                Error::SegmentCount
            } else {
                first_segment_error(split_slash(collection_path@))
            }),
    {
        self.database_name.clone().collection(collection_path)
    }

    /// A transaction on this database, bound to the token the store issued.
    pub fn begin_transaction<F>(&self, token: Vec<u8>) -> (r: Transaction<F>)
        ensures
            r.spec_database() == self.spec_database(),
            r.spec_token() == token@,
            r.spec_writes().len() == 0,
    {
        Transaction::new(self.database_name.clone(), token)
    }
}

/// Where to create `document_name`: its grandparent resource (a document, or
/// the database root), its collection identifier and its own identifier.
pub fn create_target(document_name: &DocumentName) -> (r: CreateTarget)
    ensures
        r.parent@ == join_slash(document_name@.subrange(0, document_name@.len() - 2)),
        r.collection_id@ == document_name@[document_name@.len() - 2],
        r.document_id@ == document_name@.last(),
{
    let collection_id = document_name.collection_id().to_string();
    let document_id = document_name.document_id().to_string();
    let ghost v = document_name@;
    proof {
        use_type_invariant(document_name);
    }
    let collection = document_name.clone().parent();
    let parent = match collection.clone().parent() {
        Some(d) => {
            assert(d@ =~= v.subrange(0, v.len() - 2));
            d.to_string()
        },
        None => {
            assert(collection@.subrange(0, 5) =~= v.subrange(0, v.len() - 2));
            collection.database_name().to_string()
        },
    };
    CreateTarget { parent, collection_id, document_id }
}

/// Where an update or a deletion of `document_name` goes, guarded by the
/// update time that the caller last read, so that a concurrent change makes
/// the store refuse the write.
pub fn guarded_target(document_name: &DocumentName, current_update_time: Timestamp) -> (r:
    GuardedTarget)
    ensures
        r.name@ == join_slash(document_name@),
        r.precondition == Precondition::UpdateTime(current_update_time),
{
    GuardedTarget {
        name: document_name.to_string(),
        precondition: Precondition::UpdateTime(current_update_time),
    }
}

/// What to list for `collection_name`: its parent resource (a document, or
/// the database root), its identifier and the page size.
pub fn list_target(collection_name: &CollectionName) -> (r: ListTarget)
    ensures
        r.parent@ == join_slash(collection_name@.drop_last()),
        r.collection_id@ == collection_name@.last(),
        r.page_size == PAGE_SIZE,
{
    let collection_id = collection_name.collection_id().to_string();
    let ghost v = collection_name@;
    proof {
        use_type_invariant(collection_name);
    }
    let parent = match collection_name.clone().parent() {
        Some(d) => d.to_string(),
        None => {
            assert(v.subrange(0, 5) =~= v.drop_last());
            collection_name.database_name().to_string()
        },
    };
    ListTarget { parent, collection_id, page_size: PAGE_SIZE }
}

} // verus!

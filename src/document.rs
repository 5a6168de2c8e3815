use vstd::prelude::*;

use crate::error::Error;
use crate::names::{DocumentName, MAX_NAME_BYTES, document_name_segments, name_error};
use crate::segments::{byte_len, split_slash};

verus! {

/// A point in time as the store reports it: seconds since the Unix epoch and
/// a fraction in nanoseconds.
#[derive(Clone, Copy, Debug, PartialEq, Eq, Structural, Hash, PartialOrd, Ord)]
pub struct Timestamp {
    pub seconds: i64,
    pub nanos: i32,
}

impl Timestamp {
    pub fn new(seconds: i64, nanos: i32) -> (r: Timestamp)
        ensures
            r.seconds == seconds,
            r.nanos == nanos,
    {
        Timestamp { seconds, nanos }
    }
}

/// Why a record sent by the store could not be read as a document; `E` is
/// the error of decoding its fields.
#[derive(Debug, PartialEq, Eq)]
pub enum DocumentError<E> {
    CreateTimeIsNone,
    UpdateTimeIsNone,
    Deserialize(E),
    InvalidName(Error),
}

/// A stored document: its name, its data and the times the store assigned.
#[derive(Debug, PartialEq, Eq)]
pub struct Document<T> {
    create_time: Timestamp,
    data: T,
    name: DocumentName,
    update_time: Timestamp,
}

impl<T> Document<T> {
    pub closed spec fn spec_create_time(&self) -> Timestamp {
        self.create_time
    }

    pub closed spec fn spec_data(&self) -> T {
        self.data
    }

    pub closed spec fn spec_name(&self) -> Seq<Seq<char>> {
        self.name@
    }

    pub closed spec fn spec_update_time(&self) -> Timestamp {
        self.update_time
    }

    /// Reads a record of the store, given the outcome of decoding its fields:
    /// both times must be present, the fields must have decoded and the name
    /// must parse; the checks run in the order creation time, fields, name,
    /// update time.
    pub fn new<E>(
        create_time: Option<Timestamp>,
        data: Result<T, E>,
        name: &str,
        update_time: Option<Timestamp>,
    ) -> (r: Result<Document<T>, DocumentError<E>>)
        ensures
            r is Ok <==> create_time is Some && data is Ok && update_time is Some && byte_len(
                name@,
            ) <= MAX_NAME_BYTES && document_name_segments(split_slash(name@)),
            r matches Ok(d) ==> {
                &&& Some(d.spec_create_time()) == create_time
                &&& Some(d.spec_update_time()) == update_time
                &&& data == Ok::<T, E>(d.spec_data())
                &&& d.spec_name() == split_slash(name@)
            },
            r matches Err(e) ==> e == (if create_time is None {
                DocumentError::CreateTimeIsNone
            } else if data is Err {
                DocumentError::Deserialize(data->Err_0)
            } else if !(byte_len(name@) <= MAX_NAME_BYTES && document_name_segments(
                split_slash(name@),
            )) {
                DocumentError::InvalidName(name_error(name@, false))
            } else {
                DocumentError::UpdateTimeIsNone
            }),
    {
        let create_time = match create_time {
            Some(t) => t,
            None => {
                return Err(DocumentError::CreateTimeIsNone);
            },
        };
        let data = match data {
            Ok(d) => d,
            Err(e) => {
                return Err(DocumentError::Deserialize(e));
            },
        };
        let name = match DocumentName::from_str(name) {
            Ok(n) => n,
            Err(e) => {
                return Err(DocumentError::InvalidName(e));
            },
        };
        let update_time = match update_time {
            Some(t) => t,
            None => {
                return Err(DocumentError::UpdateTimeIsNone);
            },
        };
        Ok(Document { create_time, data, name, update_time })
    }

    pub fn create_time(&self) -> (r: Timestamp)
        ensures
            r == self.spec_create_time(),
    {
        self.create_time
    }

    pub fn data(self) -> (r: T)
        ensures
            r == self.spec_data(),
    {
        self.data
    }

    pub fn name(&self) -> (r: &DocumentName)
        ensures
            r@ == self.spec_name(),
    {
        &self.name
    }

    pub fn update_time(&self) -> (r: Timestamp)
        ensures
            r == self.spec_update_time(),
    {
        self.update_time
    }
}

} // verus!

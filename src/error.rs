use vstd::prelude::*;

verus! {

/// Why a string was refused as an identifier, a path or a resource name.
#[derive(Clone, Copy, Debug, PartialEq, Eq, Structural)]
pub enum Error {
    /// A project identifier broke its grammar.
    ProjectId,
    /// A database identifier broke its grammar.
    DatabaseId,
    /// A collection identifier broke its grammar.
    CollectionId,
    /// A document identifier broke its grammar.
    DocumentId,
    /// The text is longer than a name may be.
    TooLong,
    /// The fixed `projects/../databases/../documents` prefix is missing.
    Prefix,
    /// The number of segments does not fit the kind of path asked for.
    SegmentCount,
}

} // verus!

//! Error taxonomy of the library.

use vstd::prelude::*;

verus! {

/// What can go wrong while building a query or a filter, or while the
/// caller performs the file and directory work around the engine.
///
/// `InvalidPattern` and `InvalidFilter` are produced by this library at
/// construction time. `IoError` and `DirectoryReadError` are reserved for
/// the caller that reads, walks and writes: the engine itself never touches
/// the disk, so it never produces them.
#[derive(Clone, Copy, Debug, PartialEq, Eq, Structural)]
pub enum Error {
    /// A regular-expression query was requested with a malformed pattern.
    InvalidPattern,
    /// A file-type filter entry was malformed: an unknown type name, or a
    /// glob pattern that does not compile.
    InvalidFilter,
    /// A file could not be opened, read or written.
    IoError,
    /// A directory entry could not be read during traversal.
    DirectoryReadError,
}

} // verus!

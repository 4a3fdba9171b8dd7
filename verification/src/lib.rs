//! Bulk line-oriented search-and-replace.
//!
//! A query (a literal substring or a regular expression, with its
//! replacement) is applied uniformly to every eligible file: the
//! eligibility filter decides which file names are even considered, the
//! per-file engine decides which lines match and what their replaced form
//! is, and the directory patcher drives the engine over many files while
//! keeping running totals. All file and directory I/O stays with the
//! caller, which hands content in and commits patched content back.

pub mod directory_patcher;
pub mod errors;
pub mod file_patcher;
pub mod filter;
pub mod lines;
pub mod query;
pub mod stats;

pub use errors::Error;
pub use stats::Stats;

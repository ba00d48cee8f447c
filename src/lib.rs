//! Selection of old files in a directory tree and the decisions of the
//! cleanup pass that removes them, proved against their contracts.
//!
//! The library never touches a filesystem: a caller reads the tree into
//! [`tree::Entry`] values, asks the library which files are old enough, and
//! then performs the removals that the library plans step by step.
pub mod cleanup;
pub mod laws;
pub mod path;
pub mod prune;
pub mod timestamp;
pub mod tree;

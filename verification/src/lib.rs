//! Building blocks of a git repository: resolution of alternate object
//! directories, the tree of known configuration keys, and glob patterns.
pub mod alternate;
pub mod bytes;
pub mod config;
pub mod date;
pub mod glob;
pub mod refname;

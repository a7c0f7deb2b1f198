//! The tree of configuration sections and keys that are known by name.
//!
//! Sections and keys are fixed once and for all. Each has an identifier, by
//! which other sections and keys refer to it, and a description that says how
//! its name is composed and which values it takes.
pub mod keys;
pub mod laws;
pub mod registry;
pub mod root;
pub mod sections;
pub mod traits;

pub use registry::{KeyId, SectionId};
pub use sections::{branch, checkout, gitoxide, Author, Branch, Checkout, Committer, Gitoxide, Remote, User};
pub use traits::{Key, KeyError, Link, Section, SubSectionRequirement};

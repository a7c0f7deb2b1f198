//! What is known about the configuration of a repository.
pub mod tree;

pub use tree::root::Tree;

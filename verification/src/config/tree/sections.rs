//! The sections that are known by name.
use vstd::prelude::*;

pub mod author;
pub mod branch;
pub mod checkout;
pub mod committer;
pub mod gitoxide;
pub mod remote;
pub mod user;

verus! {

/// The `author` top-level section.
#[derive(Copy, Clone, Default)]
pub struct Author;

/// The `branch` top-level section.
#[derive(Copy, Clone, Default)]
pub struct Branch;

/// The `checkout` top-level section.
#[derive(Copy, Clone, Default)]
pub struct Checkout;

/// The `committer` top-level section.
#[derive(Copy, Clone, Default)]
pub struct Committer;

/// The `gitoxide` top-level section.
#[derive(Copy, Clone, Default)]
pub struct Gitoxide;

/// The `remote` top-level section.
#[derive(Copy, Clone, Default)]
pub struct Remote;

/// The `user` top-level section.
#[derive(Copy, Clone, Default)]
pub struct User;

} // verus!

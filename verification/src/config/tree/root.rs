//! The root of the tree of sections.
use vstd::prelude::*;

use crate::config::tree::registry::SectionId;
use crate::config::tree::sections;

verus! {

/// The root of the configuration tree, suitable to discover all sub-sections
/// at runtime or compile time.
#[derive(Copy, Clone, Default)]
pub struct Tree;

impl Tree {
    /// The `author` section.
    pub const AUTHOR: sections::Author = sections::Author;

    /// The `branch` section.
    pub const BRANCH: sections::Branch = sections::Branch;

    /// The `checkout` section.
    pub const CHECKOUT: sections::Checkout = sections::Checkout;

    /// The `commiter` section.
    pub const COMMITTER: sections::Committer = sections::Committer;

    /// The `gitoxide` section.
    pub const GITOXIDE: sections::Gitoxide = sections::Gitoxide;

    /// The `remote` section.
    pub const REMOTE: sections::Remote = sections::Remote;

    /// The `user` section.
    pub const USER: sections::User = sections::User;

    /// The identifiers of the top-level sections, in the order of their
    /// names.
    pub open spec fn section_ids() -> Seq<SectionId> {
        seq![
            SectionId::Author,
            SectionId::Branch,
            SectionId::Checkout,
            SectionId::Committer,
            SectionId::Gitoxide,
            SectionId::Remote,
            SectionId::User,
        ]
    }

    /// List all available sections.
    pub fn sections(&self) -> (sections: Vec<SectionId>)
        ensures
            sections@ == Tree::section_ids(),
    {
        let sections = vec![
            SectionId::Author,
            SectionId::Branch,
            SectionId::Checkout,
            SectionId::Committer,
            SectionId::Gitoxide,
            SectionId::Remote,
            SectionId::User,
        ];
        assert(sections@ =~= Tree::section_ids());
        sections
    }
}

} // verus!

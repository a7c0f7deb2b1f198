//! The `gitoxide` section and its sub-sections.
use vstd::prelude::*;

use crate::config::tree::keys;
use crate::config::tree::registry::KeyId;
use crate::config::tree::registry::SectionId;
use crate::config::tree::sections::Gitoxide;
use crate::config::tree::traits::Section;

verus! {

impl Gitoxide {
    /// The `gitoxide.author` section.
    pub const AUTHOR: Author = Author;

    /// The `gitoxide.commit` section.
    pub const COMMIT: Commit = Commit;

    /// The `gitoxide.committer` section.
    pub const COMMITTER: Committer = Committer;
}

impl Section for Gitoxide {
    open spec fn name_view(&self) -> Seq<char> {
        "gitoxide"@
    }

    open spec fn key_ids(&self) -> Seq<KeyId> {
        seq![]
    }

    open spec fn sub_section_ids(&self) -> Seq<SectionId> {
        seq![SectionId::GitoxideAuthor, SectionId::GitoxideCommit, SectionId::GitoxideCommitter]
    }

    open spec fn parent_id(&self) -> Option<SectionId> {
        None
    }

    fn name(&self) -> (name: &str) {
        "gitoxide"
    }

    fn keys(&self) -> (keys: Vec<KeyId>) {
        let keys = vec![];
        assert(keys@ =~= self.key_ids());
        keys
    }

    fn sub_sections(&self) -> (sections: Vec<SectionId>) {
        let sections = vec![SectionId::GitoxideAuthor, SectionId::GitoxideCommit, SectionId::GitoxideCommitter];
        assert(sections@ =~= self.sub_section_ids());
        sections
    }

    fn parent(&self) -> (parent: Option<SectionId>) {
        None
    }
}

/// The `author` sub-section.
#[derive(Copy, Clone, Default)]
pub struct Author;

impl Author {
    /// The `gitoxide.author.nameFallback` key.
    pub const NAME_FALLBACK: KeyId = KeyId::GitoxideAuthorNameFallback;

    /// The `gitoxide.author.emailFallback` key.
    pub const EMAIL_FALLBACK: KeyId = KeyId::GitoxideAuthorEmailFallback;

    /// What the `gitoxide.author.nameFallback` key is.
    pub fn name_fallback_key() -> (key: keys::Any)
        ensures
            key.described() == KeyId::GitoxideAuthorNameFallback.described(),
    {
        keys::Any::new("nameFallback", SectionId::GitoxideAuthor).with_environment_override(
            "GIT_AUTHOR_NAME",
        )
    }

    /// What the `gitoxide.author.emailFallback` key is.
    pub fn email_fallback_key() -> (key: keys::Any)
        ensures
            key.described() == KeyId::GitoxideAuthorEmailFallback.described(),
    {
        keys::Any::new("emailFallback", SectionId::GitoxideAuthor).with_environment_override(
            "GIT_AUTHOR_EMAIL",
        )
    }
}

impl Section for Author {
    open spec fn name_view(&self) -> Seq<char> {
        "author"@
    }

    open spec fn key_ids(&self) -> Seq<KeyId> {
        seq![KeyId::GitoxideAuthorNameFallback, KeyId::GitoxideAuthorEmailFallback]
    }

    open spec fn sub_section_ids(&self) -> Seq<SectionId> {
        seq![]
    }

    open spec fn parent_id(&self) -> Option<SectionId> {
        Some(SectionId::Gitoxide)
    }

    fn name(&self) -> (name: &str) {
        "author"
    }

    fn keys(&self) -> (keys: Vec<KeyId>) {
        let keys = vec![KeyId::GitoxideAuthorNameFallback, KeyId::GitoxideAuthorEmailFallback];
        assert(keys@ =~= self.key_ids());
        keys
    }

    fn sub_sections(&self) -> (sections: Vec<SectionId>) {
        let sections = vec![];
        assert(sections@ =~= self.sub_section_ids());
        sections
    }

    fn parent(&self) -> (parent: Option<SectionId>) {
        Some(SectionId::Gitoxide)
    }
}

/// The `committer` sub-section.
#[derive(Copy, Clone, Default)]
pub struct Committer;

impl Committer {
    /// The `gitoxide.committer.nameFallback` key.
    pub const NAME_FALLBACK: KeyId = KeyId::GitoxideCommitterNameFallback;

    /// The `gitoxide.committer.emailFallback` key.
    pub const EMAIL_FALLBACK: KeyId = KeyId::GitoxideCommitterEmailFallback;

    /// What the `gitoxide.committer.nameFallback` key is.
    pub fn name_fallback_key() -> (key: keys::Any)
        ensures
            key.described() == KeyId::GitoxideCommitterNameFallback.described(),
    {
        keys::Any::new("nameFallback", SectionId::GitoxideCommitter).with_environment_override(
            "GIT_COMMITTER_NAME",
        )
    }

    /// What the `gitoxide.committer.emailFallback` key is.
    pub fn email_fallback_key() -> (key: keys::Any)
        ensures
            key.described() == KeyId::GitoxideCommitterEmailFallback.described(),
    {
        keys::Any::new("emailFallback", SectionId::GitoxideCommitter).with_environment_override(
            "GIT_COMMITTER_EMAIL",
        )
    }
}

impl Section for Committer {
    open spec fn name_view(&self) -> Seq<char> {
        "committer"@
    }

    open spec fn key_ids(&self) -> Seq<KeyId> {
        seq![KeyId::GitoxideCommitterNameFallback, KeyId::GitoxideCommitterEmailFallback]
    }

    open spec fn sub_section_ids(&self) -> Seq<SectionId> {
        seq![]
    }

    open spec fn parent_id(&self) -> Option<SectionId> {
        Some(SectionId::Gitoxide)
    }

    fn name(&self) -> (name: &str) {
        "committer"
    }

    fn keys(&self) -> (keys: Vec<KeyId>) {
        let keys = vec![KeyId::GitoxideCommitterNameFallback, KeyId::GitoxideCommitterEmailFallback];
        assert(keys@ =~= self.key_ids());
        keys
    }

    fn sub_sections(&self) -> (sections: Vec<SectionId>) {
        let sections = vec![];
        assert(sections@ =~= self.sub_section_ids());
        sections
    }

    fn parent(&self) -> (parent: Option<SectionId>) {
        Some(SectionId::Gitoxide)
    }
}

/// The `commit` sub-section.
#[derive(Copy, Clone, Default)]
pub struct Commit;

impl Commit {
    /// The `gitoxide.commit.authorDate` key.
    pub const AUTHOR_DATE: KeyId = KeyId::GitoxideCommitAuthorDate;

    /// The `gitoxide.commit.committerDate` key.
    pub const COMMITTER_DATE: KeyId = KeyId::GitoxideCommitCommitterDate;

    /// What the `gitoxide.commit.authorDate` key is.
    pub fn author_date_key() -> (key: keys::Time)
        ensures
            key.described() == KeyId::GitoxideCommitAuthorDate.described(),
    {
        keys::Time::new_time("authorDate", SectionId::GitoxideCommit).with_environment_override(
            "GIT_AUTHOR_DATE",
        )
    }

    /// What the `gitoxide.commit.committerDate` key is.
    pub fn committer_date_key() -> (key: keys::Time)
        ensures
            key.described() == KeyId::GitoxideCommitCommitterDate.described(),
    {
        keys::Time::new_time("committerDate", SectionId::GitoxideCommit).with_environment_override(
            "GIT_COMMITTER_DATE",
        )
    }
}

impl Section for Commit {
    open spec fn name_view(&self) -> Seq<char> {
        "commit"@
    }

    open spec fn key_ids(&self) -> Seq<KeyId> {
        seq![]
    }

    open spec fn sub_section_ids(&self) -> Seq<SectionId> {
        seq![]
    }

    open spec fn parent_id(&self) -> Option<SectionId> {
        Some(SectionId::Gitoxide)
    }

    fn name(&self) -> (name: &str) {
        "commit"
    }

    fn keys(&self) -> (keys: Vec<KeyId>) {
        let keys = vec![];
        assert(keys@ =~= self.key_ids());
        keys
    }

    fn sub_sections(&self) -> (sections: Vec<SectionId>) {
        let sections = vec![];
        assert(sections@ =~= self.sub_section_ids());
        sections
    }

    fn parent(&self) -> (parent: Option<SectionId>) {
        Some(SectionId::Gitoxide)
    }
}

} // verus!

//! The identifiers of the sections and keys that are known by name, and what
//! each of them stands for.
use vstd::prelude::*;

use crate::config::tree::keys::Validate;
use crate::config::tree::keys::validate;
use crate::config::tree::sections::Author;
use crate::config::tree::sections::branch;
use crate::config::tree::sections::Branch;
use crate::config::tree::sections::checkout;
use crate::config::tree::sections::Checkout;
use crate::config::tree::sections::Committer;
use crate::config::tree::sections::Gitoxide;
use crate::config::tree::sections::gitoxide;
use crate::config::tree::sections::Remote;
use crate::config::tree::sections::User;
use crate::config::tree::traits::Key;
use crate::config::tree::traits::KeyError;
use crate::config::tree::traits::Link;
use crate::config::tree::traits::Section;
use crate::config::tree::traits::SubSectionRequirement;

verus! {

/// The identifier of a section.
#[derive(Debug, Copy, Clone, PartialEq, Eq)]
pub enum SectionId {
    /// The `author` section.
    Author,
    /// The `branch` section.
    Branch,
    /// The `checkout` section.
    Checkout,
    /// The `committer` section.
    Committer,
    /// The `gitoxide` section.
    Gitoxide,
    /// The `remote` section.
    Remote,
    /// The `user` section.
    User,
    /// The `gitoxide.author` sub-section.
    GitoxideAuthor,
    /// The `gitoxide.commit` sub-section.
    GitoxideCommit,
    /// The `gitoxide.committer` sub-section.
    GitoxideCommitter,
}

/// The identifier of a key.
#[derive(Debug, Copy, Clone, PartialEq, Eq)]
pub enum KeyId {
    /// The `author.name` key.
    AuthorName,
    /// The `author.email` key.
    AuthorEmail,
    /// The `branch.<name>.merge` key.
    BranchMerge,
    /// The `checkout.workers` key.
    CheckoutWorkers,
    /// The `committer.name` key.
    CommitterName,
    /// The `committer.email` key.
    CommitterEmail,
    /// The `gitoxide.author.nameFallback` key.
    GitoxideAuthorNameFallback,
    /// The `gitoxide.author.emailFallback` key.
    GitoxideAuthorEmailFallback,
    /// The `gitoxide.committer.nameFallback` key.
    GitoxideCommitterNameFallback,
    /// The `gitoxide.committer.emailFallback` key.
    GitoxideCommitterEmailFallback,
    /// The `gitoxide.commit.authorDate` key.
    GitoxideCommitAuthorDate,
    /// The `gitoxide.commit.committerDate` key.
    GitoxideCommitCommitterDate,
    /// The `remote.pushDefault` key.
    RemotePushDefault,
    /// The `user.name` key.
    UserName,
    /// The `user.email` key.
    UserEmail,
}

/// What is known of a key apart from the values it takes.
#[derive(Debug, Copy, Clone)]
pub struct Descriptor {
    /// The key of the value in the git configuration.
    pub name: &'static str,
    /// The parent section of the key.
    pub section: SectionId,
    /// The subsection requirement to use.
    pub subsection_requirement: Option<SubSectionRequirement>,
    /// A link to other resources that might be eligible as value.
    pub link: Option<Link>,
}

/// The description of a key below a section, without subsection and link.
pub open spec fn plain(name: &'static str, section: SectionId) -> Descriptor {
    Descriptor {
        name,
        section,
        subsection_requirement: Some(SubSectionRequirement::Never),
        link: None,
    }
}

/// The description of a key below a section that an environment variable
/// overrides.
pub open spec fn overridden(name: &'static str, section: SectionId, variable: &'static str) -> Descriptor {
    Descriptor {
        name,
        section,
        subsection_requirement: Some(SubSectionRequirement::Never),
        link: Some(Link::EnvironmentOverride(variable)),
    }
}

/// The description of a key below a section that falls back to another key.
pub open spec fn falling_back(name: &'static str, section: SectionId, key: KeyId) -> Descriptor {
    Descriptor {
        name,
        section,
        subsection_requirement: Some(SubSectionRequirement::Never),
        link: Some(Link::FallbackKey(key)),
    }
}

impl KeyId {
    /// What the key is: its name, its section, how it uses subsections and
    /// what it is linked to.
    pub open spec fn described(self) -> Descriptor {
        match self {
            KeyId::AuthorName => falling_back(
                "name",
                SectionId::Author,
                KeyId::GitoxideAuthorNameFallback,
            ),
            KeyId::AuthorEmail => falling_back(
                "email",
                SectionId::Author,
                KeyId::GitoxideAuthorEmailFallback,
            ),
            KeyId::BranchMerge => Descriptor {
                name: "merge",
                section: SectionId::Branch,
                subsection_requirement: Some(
                    SubSectionRequirement::Always { parameter: Some("name") },
                ),
                link: None,
            },
            KeyId::CheckoutWorkers => plain("workers", SectionId::Checkout),
            KeyId::CommitterName => falling_back(
                "name",
                SectionId::Committer,
                KeyId::GitoxideCommitterNameFallback,
            ),
            KeyId::CommitterEmail => falling_back(
                "email",
                SectionId::Committer,
                KeyId::GitoxideCommitterEmailFallback,
            ),
            KeyId::GitoxideAuthorNameFallback => overridden(
                "nameFallback",
                SectionId::GitoxideAuthor,
                "GIT_AUTHOR_NAME",
            ),
            KeyId::GitoxideAuthorEmailFallback => overridden(
                "emailFallback",
                SectionId::GitoxideAuthor,
                "GIT_AUTHOR_EMAIL",
            ),
            KeyId::GitoxideCommitterNameFallback => overridden(
                "nameFallback",
                SectionId::GitoxideCommitter,
                "GIT_COMMITTER_NAME",
            ),
            KeyId::GitoxideCommitterEmailFallback => overridden(
                "emailFallback",
                SectionId::GitoxideCommitter,
                "GIT_COMMITTER_EMAIL",
            ),
            KeyId::GitoxideCommitAuthorDate => overridden(
                "authorDate",
                SectionId::GitoxideCommit,
                "GIT_AUTHOR_DATE",
            ),
            KeyId::GitoxideCommitCommitterDate => overridden(
                "committerDate",
                SectionId::GitoxideCommit,
                "GIT_COMMITTER_DATE",
            ),
            KeyId::RemotePushDefault => plain("pushDefault", SectionId::Remote),
            KeyId::UserName => plain("name", SectionId::User),
            KeyId::UserEmail => plain("email", SectionId::User),
        }
    }

    /// The number of keys that are passed through when following the
    /// fallbacks of the key to their end.
    pub open spec fn rank(self) -> nat {
        match self {
            KeyId::AuthorName | KeyId::AuthorEmail | KeyId::CommitterName
            | KeyId::CommitterEmail => 1,
            _ => 0,
        }
    }

    /// Following a fallback leads to a key with fewer fallbacks ahead, so
    /// that no key falls back to itself.
    pub proof fn lemma_rank(self)
        ensures
            self.described().link matches Some(Link::FallbackKey(next)) ==> next.rank()
                < self.rank(),
    {
    }

    /// Whether validating `value` for the key may end with `outcome`.
    pub open spec fn accepts(self, value: Seq<u8>, outcome: Result<(), KeyError>) -> bool {
        match self {
            KeyId::BranchMerge => branch::validate::FullNameRef.admits(value, outcome),
            KeyId::CheckoutWorkers => checkout::validate::Workers.admits(value, outcome),
            KeyId::GitoxideCommitAuthorDate | KeyId::GitoxideCommitCommitterDate => validate::Time.admits(
                value,
                outcome,
            ),
            KeyId::RemotePushDefault => validate::RemoteName.admits(value, outcome),
            _ => validate::All.admits(value, outcome),
        }
    }

    /// Look up what the key is.
    pub fn descriptor(self) -> (descriptor: Descriptor)
        ensures
            descriptor == self.described(),
    {
        match self {
            KeyId::AuthorName => Author::name_key().descriptor(),
            KeyId::AuthorEmail => Author::email_key().descriptor(),
            KeyId::BranchMerge => Branch::merge_key().descriptor(),
            KeyId::CheckoutWorkers => Checkout::workers_key().descriptor(),
            KeyId::CommitterName => Committer::name_key().descriptor(),
            KeyId::CommitterEmail => Committer::email_key().descriptor(),
            KeyId::GitoxideAuthorNameFallback => gitoxide::Author::name_fallback_key().descriptor(),
            KeyId::GitoxideAuthorEmailFallback => gitoxide::Author::email_fallback_key().descriptor(),
            KeyId::GitoxideCommitterNameFallback => gitoxide::Committer::name_fallback_key().descriptor(),
            KeyId::GitoxideCommitterEmailFallback => gitoxide::Committer::email_fallback_key().descriptor(),
            KeyId::GitoxideCommitAuthorDate => gitoxide::Commit::author_date_key().descriptor(),
            KeyId::GitoxideCommitCommitterDate => gitoxide::Commit::committer_date_key().descriptor(),
            KeyId::RemotePushDefault => Remote::push_default_key().descriptor(),
            KeyId::UserName => User::name_key().descriptor(),
            KeyId::UserEmail => User::email_key().descriptor(),
        }
    }
}

impl Key for KeyId {
    open spec fn name_view(&self) -> Seq<char> {
        self.described().name@
    }

    open spec fn section_id(&self) -> SectionId {
        self.described().section
    }

    open spec fn requirement(&self) -> Option<SubSectionRequirement> {
        self.described().subsection_requirement
    }

    open spec fn link_to(&self) -> Option<Link> {
        self.described().link
    }

    open spec fn admits(&self, value: Seq<u8>, outcome: Result<(), KeyError>) -> bool {
        self.accepts(value, outcome)
    }

    fn name(&self) -> (name: &str) {
        self.descriptor().name
    }

    fn validate(&self, value: &[u8]) -> (outcome: Result<(), KeyError>) {
        match self {
            KeyId::BranchMerge => branch::validate::FullNameRef.validate(value),
            KeyId::CheckoutWorkers => checkout::validate::Workers.validate(value),
            KeyId::GitoxideCommitAuthorDate | KeyId::GitoxideCommitCommitterDate => validate::Time.validate(
                value,
            ),
            KeyId::RemotePushDefault => validate::RemoteName.validate(value),
            _ => validate::All.validate(value),
        }
    }

    fn section(&self) -> (section: SectionId) {
        self.descriptor().section
    }

    fn subsection_requirement(&self) -> (requirement: Option<SubSectionRequirement>) {
        self.descriptor().subsection_requirement
    }

    fn link(&self) -> (link: Option<Link>) {
        self.descriptor().link
    }
}

impl Section for SectionId {
    open spec fn name_view(&self) -> Seq<char> {
        match self {
            SectionId::Author => Author.name_view(),
            SectionId::Branch => Branch.name_view(),
            SectionId::Checkout => Checkout.name_view(),
            SectionId::Committer => Committer.name_view(),
            SectionId::Gitoxide => Gitoxide.name_view(),
            SectionId::Remote => Remote.name_view(),
            SectionId::User => User.name_view(),
            SectionId::GitoxideAuthor => gitoxide::Author.name_view(),
            SectionId::GitoxideCommit => gitoxide::Commit.name_view(),
            SectionId::GitoxideCommitter => gitoxide::Committer.name_view(),
        }
    }

    open spec fn key_ids(&self) -> Seq<KeyId> {
        match self {
            SectionId::Author => Author.key_ids(),
            SectionId::Branch => Branch.key_ids(),
            SectionId::Checkout => Checkout.key_ids(),
            SectionId::Committer => Committer.key_ids(),
            SectionId::Gitoxide => Gitoxide.key_ids(),
            SectionId::Remote => Remote.key_ids(),
            SectionId::User => User.key_ids(),
            SectionId::GitoxideAuthor => gitoxide::Author.key_ids(),
            SectionId::GitoxideCommit => gitoxide::Commit.key_ids(),
            SectionId::GitoxideCommitter => gitoxide::Committer.key_ids(),
        }
    }

    open spec fn sub_section_ids(&self) -> Seq<SectionId> {
        match self {
            SectionId::Author => Author.sub_section_ids(),
            SectionId::Branch => Branch.sub_section_ids(),
            SectionId::Checkout => Checkout.sub_section_ids(),
            SectionId::Committer => Committer.sub_section_ids(),
            SectionId::Gitoxide => Gitoxide.sub_section_ids(),
            SectionId::Remote => Remote.sub_section_ids(),
            SectionId::User => User.sub_section_ids(),
            SectionId::GitoxideAuthor => gitoxide::Author.sub_section_ids(),
            SectionId::GitoxideCommit => gitoxide::Commit.sub_section_ids(),
            SectionId::GitoxideCommitter => gitoxide::Committer.sub_section_ids(),
        }
    }

    open spec fn parent_id(&self) -> Option<SectionId> {
        match self {
            SectionId::Author => Author.parent_id(),
            SectionId::Branch => Branch.parent_id(),
            SectionId::Checkout => Checkout.parent_id(),
            SectionId::Committer => Committer.parent_id(),
            SectionId::Gitoxide => Gitoxide.parent_id(),
            SectionId::Remote => Remote.parent_id(),
            SectionId::User => User.parent_id(),
            SectionId::GitoxideAuthor => gitoxide::Author.parent_id(),
            SectionId::GitoxideCommit => gitoxide::Commit.parent_id(),
            SectionId::GitoxideCommitter => gitoxide::Committer.parent_id(),
        }
    }

    fn name(&self) -> (name: &str) {
        match self {
            SectionId::Author => Author.name(),
            SectionId::Branch => Branch.name(),
            SectionId::Checkout => Checkout.name(),
            SectionId::Committer => Committer.name(),
            SectionId::Gitoxide => Gitoxide.name(),
            SectionId::Remote => Remote.name(),
            SectionId::User => User.name(),
            SectionId::GitoxideAuthor => gitoxide::Author.name(),
            SectionId::GitoxideCommit => gitoxide::Commit.name(),
            SectionId::GitoxideCommitter => gitoxide::Committer.name(),
        }
    }

    fn keys(&self) -> (keys: Vec<KeyId>) {
        match self {
            SectionId::Author => Author.keys(),
            SectionId::Branch => Branch.keys(),
            SectionId::Checkout => Checkout.keys(),
            SectionId::Committer => Committer.keys(),
            SectionId::Gitoxide => Gitoxide.keys(),
            SectionId::Remote => Remote.keys(),
            SectionId::User => User.keys(),
            SectionId::GitoxideAuthor => gitoxide::Author.keys(),
            SectionId::GitoxideCommit => gitoxide::Commit.keys(),
            SectionId::GitoxideCommitter => gitoxide::Committer.keys(),
        }
    }

    fn sub_sections(&self) -> (sections: Vec<SectionId>) {
        match self {
            SectionId::Author => Author.sub_sections(),
            SectionId::Branch => Branch.sub_sections(),
            SectionId::Checkout => Checkout.sub_sections(),
            SectionId::Committer => Committer.sub_sections(),
            SectionId::Gitoxide => Gitoxide.sub_sections(),
            SectionId::Remote => Remote.sub_sections(),
            SectionId::User => User.sub_sections(),
            SectionId::GitoxideAuthor => gitoxide::Author.sub_sections(),
            SectionId::GitoxideCommit => gitoxide::Commit.sub_sections(),
            SectionId::GitoxideCommitter => gitoxide::Committer.sub_sections(),
        }
    }

    fn parent(&self) -> (parent: Option<SectionId>) {
        match self {
            SectionId::Author => Author.parent(),
            SectionId::Branch => Branch.parent(),
            SectionId::Checkout => Checkout.parent(),
            SectionId::Committer => Committer.parent(),
            SectionId::Gitoxide => Gitoxide.parent(),
            SectionId::Remote => Remote.parent(),
            SectionId::User => User.parent(),
            SectionId::GitoxideAuthor => gitoxide::Author.parent(),
            SectionId::GitoxideCommit => gitoxide::Commit.parent(),
            SectionId::GitoxideCommitter => gitoxide::Committer.parent(),
        }
    }
}

} // verus!

//! The `committer` section.
use vstd::prelude::*;

use crate::config::tree::keys;
use crate::config::tree::registry::KeyId;
use crate::config::tree::registry::SectionId;
use crate::config::tree::sections::Committer;
use crate::config::tree::traits::Section;

verus! {

impl Committer {
    /// The `committer.name` key.
    pub const NAME: KeyId = KeyId::CommitterName;

    /// The `committer.email` key.
    pub const EMAIL: KeyId = KeyId::CommitterEmail;

    /// What the `committer.name` key is.
    pub fn name_key() -> (key: keys::Any)
        ensures
            key.described() == KeyId::CommitterName.described(),
    {
        keys::Any::new("name", SectionId::Committer).with_fallback(KeyId::GitoxideCommitterNameFallback)
    }

    /// What the `committer.email` key is.
    pub fn email_key() -> (key: keys::Any)
        ensures
            key.described() == KeyId::CommitterEmail.described(),
    {
        keys::Any::new("email", SectionId::Committer).with_fallback(KeyId::GitoxideCommitterEmailFallback)
    }
}

impl Section for Committer {
    open spec fn name_view(&self) -> Seq<char> {
        "committer"@
    }

    open spec fn key_ids(&self) -> Seq<KeyId> {
        seq![KeyId::CommitterName, KeyId::CommitterEmail]
    }

    open spec fn sub_section_ids(&self) -> Seq<SectionId> {
        seq![]
    }

    open spec fn parent_id(&self) -> Option<SectionId> {
        None
    }

    fn name(&self) -> (name: &str) {
        "committer"
    }

    fn keys(&self) -> (keys: Vec<KeyId>) {
        let keys = vec![KeyId::CommitterName, KeyId::CommitterEmail];
        assert(keys@ =~= self.key_ids());
        keys
    }

    fn sub_sections(&self) -> (sections: Vec<SectionId>) {
        let sections = vec![];
        assert(sections@ =~= self.sub_section_ids());
        sections
    }

    fn parent(&self) -> (parent: Option<SectionId>) {
        None
    }
}

} // verus!

//! The `author` section.
use vstd::prelude::*;

use crate::config::tree::keys;
use crate::config::tree::registry::KeyId;
use crate::config::tree::registry::SectionId;
use crate::config::tree::sections::Author;
use crate::config::tree::traits::Section;

verus! {

impl Author {
    /// The `author.name` key.
    pub const NAME: KeyId = KeyId::AuthorName;

    /// The `author.email` key.
    pub const EMAIL: KeyId = KeyId::AuthorEmail;

    /// What the `author.name` key is.
    pub fn name_key() -> (key: keys::Any)
        ensures
            key.described() == KeyId::AuthorName.described(),
    {
        keys::Any::new("name", SectionId::Author).with_fallback(KeyId::GitoxideAuthorNameFallback)
    }

    /// What the `author.email` key is.
    pub fn email_key() -> (key: keys::Any)
        ensures
            key.described() == KeyId::AuthorEmail.described(),
    {
        keys::Any::new("email", SectionId::Author).with_fallback(KeyId::GitoxideAuthorEmailFallback)
    }
}

impl Section for Author {
    open spec fn name_view(&self) -> Seq<char> {
        "author"@
    }

    open spec fn key_ids(&self) -> Seq<KeyId> {
        seq![KeyId::AuthorName, KeyId::AuthorEmail]
    }

    open spec fn sub_section_ids(&self) -> Seq<SectionId> {
        seq![]
    }

    open spec fn parent_id(&self) -> Option<SectionId> {
        None
    }

    fn name(&self) -> (name: &str) {
        "author"
    }

    fn keys(&self) -> (keys: Vec<KeyId>) {
        let keys = vec![KeyId::AuthorName, KeyId::AuthorEmail];
        assert(keys@ =~= self.key_ids());
        keys
    }

    fn sub_sections(&self) -> (sections: Vec<SectionId>) {
        let sections = vec![];
        assert(sections@ =~= self.sub_section_ids());
        sections
    }

    fn parent(&self) -> (parent: Option<SectionId>) {
        None
    }
}

} // verus!

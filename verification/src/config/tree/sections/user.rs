//! The `user` section.
use vstd::prelude::*;

use crate::config::tree::keys;
use crate::config::tree::registry::KeyId;
use crate::config::tree::registry::SectionId;
use crate::config::tree::sections::User;
use crate::config::tree::traits::Section;

verus! {

impl User {
    /// The `user.name` key
    pub const NAME: KeyId = KeyId::UserName;

    /// The `user.email` key
    pub const EMAIL: KeyId = KeyId::UserEmail;

    /// What the `user.name` key is.
    pub fn name_key() -> (key: keys::Any)
        ensures
            key.described() == KeyId::UserName.described(),
    {
        keys::Any::new("name", SectionId::User)
    }

    /// What the `user.email` key is.
    pub fn email_key() -> (key: keys::Any)
        ensures
            key.described() == KeyId::UserEmail.described(),
    {
        keys::Any::new("email", SectionId::User)
    }
}

impl Section for User {
    open spec fn name_view(&self) -> Seq<char> {
        "user"@
    }

    open spec fn key_ids(&self) -> Seq<KeyId> {
        seq![KeyId::UserName, KeyId::UserEmail]
    }

    open spec fn sub_section_ids(&self) -> Seq<SectionId> {
        seq![]
    }

    open spec fn parent_id(&self) -> Option<SectionId> {
        None
    }

    fn name(&self) -> (name: &str) {
        "user"
    }

    fn keys(&self) -> (keys: Vec<KeyId>) {
        let keys = vec![KeyId::UserName, KeyId::UserEmail];
        assert(keys@ =~= self.key_ids());
        keys
    }

    fn sub_sections(&self) -> (sections: Vec<SectionId>) {
        let sections = vec![];
        assert(sections@ =~= self.sub_section_ids());
        sections
    }

    fn parent(&self) -> (parent: Option<SectionId>) {
        None
    }
}

} // verus!

//! The `remote` section.
use vstd::prelude::*;

use crate::config::tree::keys;
use crate::config::tree::registry::KeyId;
use crate::config::tree::registry::SectionId;
use crate::config::tree::sections::Remote;
use crate::config::tree::traits::Section;

verus! {

impl Remote {
    /// The `remote.pushDefault` key
    pub const PUSH_DEFAULT: KeyId = KeyId::RemotePushDefault;

    /// What the `remote.pushDefault` key is.
    pub fn push_default_key() -> (key: keys::RemoteName)
        ensures
            key.described() == KeyId::RemotePushDefault.described(),
    {
        keys::RemoteName::new_remote_name("pushDefault", SectionId::Remote)
    }
}

impl Section for Remote {
    open spec fn name_view(&self) -> Seq<char> {
        "remote"@
    }

    open spec fn key_ids(&self) -> Seq<KeyId> {
        seq![KeyId::RemotePushDefault]
    }

    open spec fn sub_section_ids(&self) -> Seq<SectionId> {
        seq![]
    }

    open spec fn parent_id(&self) -> Option<SectionId> {
        None
    }

    fn name(&self) -> (name: &str) {
        "remote"
    }

    fn keys(&self) -> (keys: Vec<KeyId>) {
        let keys = vec![KeyId::RemotePushDefault];
        assert(keys@ =~= self.key_ids());
        keys
    }

    fn sub_sections(&self) -> (sections: Vec<SectionId>) {
        let sections = vec![];
        assert(sections@ =~= self.sub_section_ids());
        sections
    }

    fn parent(&self) -> (parent: Option<SectionId>) {
        None
    }
}

} // verus!

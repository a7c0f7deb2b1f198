//! The `branch` section.
use vstd::prelude::*;

use crate::bytes;
use crate::config::tree::keys;
use crate::config::tree::registry::KeyId;
use crate::config::tree::registry::SectionId;
use crate::config::tree::sections::Branch;
use crate::config::tree::traits::Section;
use crate::config::tree::traits::SubSectionRequirement;
use crate::refname;

pub mod validate;

verus! {

impl Branch {
    /// The `branch.<name>.merge` key.
    pub const MERGE: KeyId = KeyId::BranchMerge;

    /// What the `branch.<name>.merge` key is.
    pub fn merge_key() -> (key: Merge)
        ensures
            key.described() == KeyId::BranchMerge.described(),
    {
        Merge::new_with_validate("merge", SectionId::Branch, validate::FullNameRef)
            .with_subsection_requirement(
            Some(SubSectionRequirement::Always { parameter: Some("name") }),
        )
    }
}

/// The `branch.<name>.merge` key.
pub type Merge = keys::Any<validate::FullNameRef>;

impl Section for Branch {
    open spec fn name_view(&self) -> Seq<char> {
        "branch"@
    }

    open spec fn key_ids(&self) -> Seq<KeyId> {
        seq![KeyId::BranchMerge]
    }

    open spec fn sub_section_ids(&self) -> Seq<SectionId> {
        seq![]
    }

    open spec fn parent_id(&self) -> Option<SectionId> {
        None
    }

    fn name(&self) -> (name: &str) {
        "branch"
    }

    fn keys(&self) -> (keys: Vec<KeyId>) {
        let keys = vec![KeyId::BranchMerge];
        assert(keys@ =~= self.key_ids());
        keys
    }

    fn sub_sections(&self) -> (sections: Vec<SectionId>) {
        let sections = vec![];
        assert(sections@ =~= self.sub_section_ids());
        sections
    }

    fn parent(&self) -> (parent: Option<SectionId>) {
        None
    }
}

impl Merge {
    /// Return the validated full name of the reference to merge with, which
    /// is `value` itself.
    ///
    /// Fails exactly if `value` is not the full name of a reference.
    pub fn try_into_fullrefname(value: &[u8]) -> (name: Result<
        Vec<u8>,
        git_validate::reference::name::Error,
    >)
        ensures
            name is Ok <==> refname::is_name(value@),
            name matches Ok(bytes) ==> bytes@ == value@,
    {
        match refname::check_name(value) {
            Ok(()) => Ok(crate::bytes::to_owned(value)),
            Err(error) => Err(error),
        }
    }
}

} // verus!

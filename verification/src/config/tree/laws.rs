//! What holds of the tree of sections and keys as a whole.
use vstd::prelude::*;

use crate::config::tree::registry::KeyId;
use crate::config::tree::registry::SectionId;
use crate::config::tree::root::Tree;
use crate::config::tree::traits::environment_override_of;
use crate::config::tree::traits::Key;
use crate::config::tree::traits::Link;
use crate::config::tree::traits::Section;
use crate::config::tree::traits::subsection_fits;
use crate::config::tree::traits::SubSectionRequirement;

verus! {

/// Every key that a section lists is a key of that section.
pub proof fn law_keys_belong_to_their_section(section: SectionId, index: int)
    requires
        0 <= index < section.key_ids().len(),
    ensures
        section.key_ids()[index].section_id() == section,
{
}

/// The sections that the root lists are those without a parent, and every
/// other section is listed by its parent as a sub-section.
pub proof fn law_sections_form_a_tree(section: SectionId)
    ensures
        section.parent_id() is None <==> Tree::section_ids().contains(section),
        section.parent_id() matches Some(parent) ==> parent.sub_section_ids().contains(section),
        forall|index: int|
            0 <= index < section.sub_section_ids().len()
                ==> #[trigger] section.sub_section_ids()[index].parent_id() == Some(section),
{
    let top = Tree::section_ids();
    assert(top[0] == SectionId::Author);
    assert(top[1] == SectionId::Branch);
    assert(top[2] == SectionId::Checkout);
    assert(top[3] == SectionId::Committer);
    assert(top[4] == SectionId::Gitoxide);
    assert(top[5] == SectionId::Remote);
    assert(top[6] == SectionId::User);
    let below = SectionId::Gitoxide.sub_section_ids();
    assert(below[0] == SectionId::GitoxideAuthor);
    assert(below[1] == SectionId::GitoxideCommit);
    assert(below[2] == SectionId::GitoxideCommitter);
}

/// Sub-sections are one level below the root: the parent of a section has no
/// parent itself.
pub proof fn law_sub_sections_are_not_nested(section: SectionId)
    ensures
        section.parent_id() matches Some(parent) ==> parent.parent_id() is None,
{
}

/// A key below a sub-section cannot be used with a subsection of its own, so
/// that a full name has a subsection only directly below a top-level section.
pub proof fn law_keys_of_sub_sections_take_no_subsection(key: KeyId, subsection: Seq<u8>)
    requires
        key.section_id().parent_id() is Some,
    ensures
        key.requirement() == Some(SubSectionRequirement::Never),
        !subsection_fits(key.requirement(), Some(subsection)),
{
}

/// The environment variable that overrides a key is the one it is linked to,
/// or else the one that overrides the key it falls back to; a key that falls
/// back to another is never that key itself.
pub proof fn law_override_follows_fallbacks(key: KeyId)
    ensures
        key.link_to() matches Some(Link::EnvironmentOverride(name)) ==> environment_override_of(
            key.link_to(),
        ) == Some(name),
        key.link_to() matches Some(Link::FallbackKey(next)) ==> {
            &&& next != key
            &&& environment_override_of(key.link_to()) == environment_override_of(next.link_to())
        },
        key.link_to() is None ==> environment_override_of(key.link_to()) is None,
{
}

} // verus!

//! What sections and keys have in common.
use vstd::prelude::*;
use vstd::string::StringExecFns;
use vstd::utf8::encode_utf8;

use crate::bytes;
use crate::config::tree::registry::KeyId;
use crate::config::tree::registry::SectionId;
use crate::date::DateError;

verus! {

/// The byte that separates the parts of the name of a key.
pub const DOT: u8 = 0x2e;

/// The byte between the name of a key and the value assigned to it.
pub const EQUALS: u8 = 0x3d;

/// Determine how subsections may be used with a given key.
#[derive(Debug, Copy, Clone)]
pub enum SubSectionRequirement {
    /// Subsections must not be used, this key can only be below a section.
    Never,
    /// This key must always be in a subsection, and `parameter` is the kind
    /// of value the sub-section represents if it is non-static.
    Always {
        /// The name of the parameter to show if the sub-section isn't static,
        /// like `section.<parameter>.key`.
        parameter: Option<&'static str>,
    },
}

/// A way to link a key with other resources.
#[derive(Debug, Copy, Clone)]
pub enum Link {
    /// The environment variable of the given name will override the value of
    /// this key.
    EnvironmentOverride(&'static str),
    /// This config key is used as fallback if this key isn't set.
    FallbackKey(KeyId),
}

/// Why a value is not accepted for a key, or why the name of a key cannot be
/// composed.
#[derive(Debug)]
pub enum KeyError {
    /// The value has to be text, and it is not valid UTF-8.
    IllformedUtf8(bstr::Utf8Error),
    /// The value does not read as a date.
    Date(DateError),
    /// The value is neither a URL nor text, and thus no name of a remote.
    IllformedRemoteName {
        /// What is wrong, in words that quote the value.
        message: String,
    },
    /// The value is not the full name of a reference.
    ReferenceName(git_validate::reference::name::Error),
    /// The key cannot be used with a subsection, and one was given.
    SubsectionForbidden {
        /// What is wrong, in words that name the key.
        message: String,
    },
    /// The key cannot be used without a subsection, and none was given.
    SubsectionRequired {
        /// What is wrong, in words that name the key.
        message: String,
    },
    /// Values for the key cannot be validated.
    Unsupported,
}

/// Provide information about a configuration section.
pub trait Section {
    /// The section name as a sequence of characters.
    spec fn name_view(&self) -> Seq<char>;

    /// The identifiers of the keys directly underneath the section.
    spec fn key_ids(&self) -> Seq<KeyId>;

    /// The identifiers of the statically known sub-sections.
    spec fn sub_section_ids(&self) -> Seq<SectionId>;

    /// The identifier of the parent section, if there is one.
    spec fn parent_id(&self) -> Option<SectionId>;

    /// The section name, like `remote` in `remote.origin.url`.
    fn name(&self) -> (name: &str)
        ensures
            name@ == self.name_view(),
    ;

    /// The keys directly underneath it for carrying configuration values.
    fn keys(&self) -> (keys: Vec<KeyId>)
        ensures
            keys@ == self.key_ids(),
    ;

    /// The list of sub-sections, which is empty if there are no statically
    /// known sub-sections.
    fn sub_sections(&self) -> (sections: Vec<SectionId>)
        ensures
            sections@ == self.sub_section_ids(),
    ;

    /// The parent section if this is a statically known sub-section.
    fn parent(&self) -> (parent: Option<SectionId>)
        ensures
            parent == self.parent_id(),
    ;
}

/// The name of the environment variable that overrides a key with the given
/// `link`: the one the link names, or the one that overrides the key it falls
/// back to.
pub open spec fn environment_override_of(link: Option<Link>) -> Option<&'static str>
    decreases
        (match link {
            Some(Link::FallbackKey(next)) => next.rank() + 1,
            _ => 0,
        }),
{
    match link {
        None => None,
        Some(Link::EnvironmentOverride(name)) => Some(name),
        Some(Link::FallbackKey(next)) => environment_override_of(next.described().link),
    }
}

/// The parameter that stands for the subsection in the logical name of a key
/// with the given requirement.
pub open spec fn parameter_of(requirement: Option<SubSectionRequirement>) -> Option<&'static str> {
    match requirement {
        Some(SubSectionRequirement::Always { parameter }) => parameter,
        _ => None,
    }
}

/// The logical name of the key called `name` in `section`.
///
/// Below a sub-section it is `parent.section.name`. Below a top-level section
/// it is `section.name`, or `section.<parameter>.name` if the key must be in a
/// subsection whose parameter is named.
pub open spec fn logical_name_of(
    section: SectionId,
    requirement: Option<SubSectionRequirement>,
    name: Seq<char>,
) -> Seq<char> {
    match section.parent_id() {
        Some(parent) => parent.name_view() + "."@ + section.name_view() + "."@ + name,
        None => match parameter_of(requirement) {
            Some(parameter) => section.name_view() + "."@ + "<"@ + parameter@ + ">"@ + "."@
                + name,
            None => section.name_view() + "."@ + name,
        },
    }
}

/// Whether a key with the given requirement can be named with, or without, the
/// given subsection.
pub open spec fn subsection_fits(
    requirement: Option<SubSectionRequirement>,
    subsection: Option<Seq<u8>>,
) -> bool {
    match (requirement, subsection) {
        (Some(SubSectionRequirement::Never), Some(_)) => false,
        (Some(SubSectionRequirement::Always { .. }), None) => false,
        _ => true,
    }
}

/// The full name of the key called `name` in `section`, within `subsection`
/// if there is one: the names of the parent section, if any, of the section,
/// of the subsection, if any, and of the key, with a dot between them.
pub open spec fn full_name_of(section: SectionId, subsection: Option<Seq<u8>>, name: Seq<char>) -> Seq<u8> {
    let parent = match section.parent_id() {
        Some(parent) => encode_utf8(parent.name_view()).push(DOT),
        None => Seq::empty(),
    };
    let middle = match subsection {
        Some(subsection) => subsection.push(DOT),
        None => Seq::empty(),
    };
    parent + encode_utf8(section.name_view()).push(DOT) + middle + encode_utf8(name)
}

/// The assignment of `value` to the key with the given full name.
pub open spec fn assignment_of(full_name: Seq<u8>, value: Seq<u8>) -> Seq<u8> {
    full_name.push(EQUALS) + value
}

/// The words by which a key with the given logical name refuses a
/// subsection.
pub open spec fn forbidden_message(logical_name: Seq<char>) -> Seq<char> {
    "The key named '"@ + logical_name + "' cannot be used with non-static subsections."@
}

/// The words by which a key with the given logical name refuses to go
/// without a subsection.
pub open spec fn required_message(logical_name: Seq<char>) -> Seq<char> {
    "The key named '"@ + logical_name + "' cannot be used without subsections."@
}

/// Whether `error` is the one by which a key with the given logical name
/// refuses a subsection that was `given`, or the lack of one.
pub open spec fn misfit(logical_name: Seq<char>, given: bool, error: KeyError) -> bool {
    if given {
        error matches KeyError::SubsectionForbidden { message } && message@ == forbidden_message(
            logical_name,
        )
    } else {
        error matches KeyError::SubsectionRequired { message } && message@ == required_message(
            logical_name,
        )
    }
}

/// The bytes of `subsection`, if there is one.
pub open spec fn bytes_of(subsection: Option<&[u8]>) -> Option<Seq<u8>> {
    match subsection {
        Some(bytes) => Some(bytes@),
        None => None,
    }
}

/// The measure by which following `link` comes to an end.
pub open spec fn hops(link: Link) -> nat {
    match link {
        Link::FallbackKey(next) => next.rank() + 1,
        Link::EnvironmentOverride(_) => 0,
    }
}

/// A leaf-level entry in the git configuration, like `url` in
/// `remote.origin.url`.
pub trait Key {
    /// The name of the key as a sequence of characters.
    spec fn name_view(&self) -> Seq<char>;

    /// The identifier of the section that contains the key.
    spec fn section_id(&self) -> SectionId;

    /// How subsections may be used with the key. `None` stands for
    /// subsections that may or may not be used.
    spec fn requirement(&self) -> Option<SubSectionRequirement>;

    /// The link of the key to other resources.
    spec fn link_to(&self) -> Option<Link>;

    /// Whether validating `value` may end with `outcome`.
    spec fn admits(&self, value: Seq<u8>, outcome: Result<(), KeyError>) -> bool;

    /// The key's name, like `url` in `remote.origin.url`.
    fn name(&self) -> (name: &str)
        ensures
            name@ == self.name_view(),
    ;

    /// See if `value` is allowed as value of this key, or return a
    /// descriptive error if it is not.
    fn validate(&self, value: &[u8]) -> (outcome: Result<(), KeyError>)
        ensures
            self.admits(value@, outcome),
    ;

    /// Hand `value` back as it is.
    fn validate_any(&self, value: Vec<u8>) -> (same: Vec<u8>)
        ensures
            same == value,
    {
        value
    }

    /// The section containing this key. Git configuration has no
    /// free-standing keys, they are always underneath a section.
    fn section(&self) -> (section: SectionId)
        ensures
            section == self.section_id(),
    ;

    /// The return value encodes three possible states to indicate subsection
    /// requirements:
    /// * `None` = subsections may or may not be used, the most flexible
    ///   setting.
    /// * `Some(requirement)` = subsections must or must not be used,
    ///   depending on the value.
    fn subsection_requirement(&self) -> (requirement: Option<SubSectionRequirement>)
        ensures
            requirement == self.requirement(),
    ;

    /// Return the link to other resources, if available.
    fn link(&self) -> (link: Option<Link>)
        ensures
            link == self.link_to(),
    ;

    /// Return the name of an environment variable that would override this
    /// value (after following links until one is found).
    fn environment_override(&self) -> (name: Option<&str>)
        ensures
            match (name, environment_override_of(self.link_to())) {
                (Some(found), Some(expected)) => found@ == expected@,
                (None, None) => true,
                _ => false,
            },
    {
        let mut cursor = match self.link() {
            Some(link) => link,
            None => {
                return None;
            },
        };
        loop
            invariant
                environment_override_of(Some(cursor)) == environment_override_of(self.link_to()),
            decreases hops(cursor),
        {
            match cursor {
                Link::EnvironmentOverride(name) => {
                    return Some(name);
                },
                Link::FallbackKey(next) => {
                    proof {
                        next.lemma_rank();
                    }
                    cursor = match next.descriptor().link {
                        Some(link) => link,
                        None => {
                            return None;
                        },
                    };
                },
            }
        }
    }

    /// Produce a name that describes how the name is composed. This is
    /// `core.bare` for statically known keys, or `branch.<name>.key` for
    /// complex ones.
    fn logical_name(&self) -> (name: String)
        ensures
            name@ == logical_name_of(self.section_id(), self.requirement(), self.name_view()),
    {
        let section = self.section();
        let mut buf = String::new();
        let parameter = match section.parent() {
            Some(parent) => {
                buf.append(parent.name());
                buf.append(".");
                None
            },
            None => match self.subsection_requirement() {
                Some(SubSectionRequirement::Always { parameter }) => parameter,
                _ => None,
            },
        };
        buf.append(section.name());
        buf.append(".");
        if let Some(parameter) = parameter {
            buf.append("<");
            buf.append(parameter);
            buf.append(">");
            buf.append(".");
        }
        buf.append(self.name());
        assert(buf@ =~= logical_name_of(
            self.section_id(),
            self.requirement(),
            self.name_view(),
        ));
        buf
    }

    /// The full name of the key for use in configuration overrides, like
    /// `core.bare`, or `remote.<subsection>.url` if `subsection` is not
    /// `None`.
    ///
    /// Fails if this key needs a subsection and none is given, or may not
    /// have a subsection and one is given.
    fn full_name(&self, subsection: Option<&[u8]>) -> (name: Result<Vec<u8>, KeyError>)
        ensures
            match name {
                Ok(bytes) => {
                    &&& subsection_fits(self.requirement(), bytes_of(subsection))
                    &&& bytes@ == full_name_of(
                        self.section_id(),
                        bytes_of(subsection),
                        self.name_view(),
                    )
                },
                Err(error) => {
                    &&& !subsection_fits(self.requirement(), bytes_of(subsection))
                    &&& misfit(
                        logical_name_of(self.section_id(), self.requirement(), self.name_view()),
                        subsection is Some,
                        error,
                    )
                },
            },
    {
        let section = self.section();
        match (self.subsection_requirement(), subsection) {
            (Some(SubSectionRequirement::Never), Some(_)) => {
                let mut message = String::from_str("The key named '");
                message.append(self.logical_name().as_str());
                message.append("' cannot be used with non-static subsections.");
                return Err(KeyError::SubsectionForbidden { message });
            },
            (Some(SubSectionRequirement::Always { parameter: _ }), None) => {
                let mut message = String::from_str("The key named '");
                message.append(self.logical_name().as_str());
                message.append("' cannot be used without subsections.");
                return Err(KeyError::SubsectionRequired { message });
            },
            _ => {},
        }
        let mut buf: Vec<u8> = Vec::new();
        if let Some(parent) = section.parent() {
            bytes::append(&mut buf, parent.name().as_bytes());
            buf.push(DOT);
        }
        bytes::append(&mut buf, section.name().as_bytes());
        buf.push(DOT);
        if let Some(subsection) = subsection {
            bytes::append(&mut buf, subsection);
            buf.push(DOT);
        }
        bytes::append(&mut buf, self.name().as_bytes());
        assert(buf@ =~= full_name_of(self.section_id(), bytes_of(subsection), self.name_view()));
        Ok(buf)
    }

    /// Return an assignment with the keys full name to `value`, suitable for
    /// configuration overrides.
    ///
    /// Fails if `value` is not valid for the key, or if the key requires a
    /// subsection.
    fn validated_assignment(&self, value: &[u8]) -> (assignment: Result<Vec<u8>, KeyError>)
        ensures
            match assignment {
                Ok(bytes) => {
                    &&& self.admits(value@, Ok(()))
                    &&& subsection_fits(self.requirement(), None)
                    &&& bytes@ == assignment_of(
                        full_name_of(self.section_id(), None, self.name_view()),
                        value@,
                    )
                },
                Err(error) => {
                    ||| self.admits(value@, Err(error))
                    ||| {
                        &&& self.admits(value@, Ok(()))
                        &&& !subsection_fits(self.requirement(), None)
                        &&& misfit(
                            logical_name_of(
                                self.section_id(),
                                self.requirement(),
                                self.name_view(),
                            ),
                            false,
                            error,
                        )
                    }
                },
            },
    {
        let outcome = self.validate(value);
        let ghost validated = outcome;
        if let Err(error) = outcome {
            return Err(error);
        }
        assert(validated is Ok);
        assert(validated->Ok_0 == ());
        assert(validated == Ok::<(), KeyError>(()));
        let mut key = match self.full_name(None) {
            Ok(key) => key,
            Err(error) => {
                return Err(error);
            },
        };
        key.push(EQUALS);
        bytes::append(&mut key, value);
        Ok(key)
    }

    /// Return an assignment to `value` with the keys full name within
    /// `subsection`, suitable for configuration overrides.
    ///
    /// Fails if `value` is not valid for the key, or if the key does not
    /// support subsections.
    fn validated_assignment_with_subsection(&self, value: &[u8], subsection: &[u8]) -> (assignment:
        Result<Vec<u8>, KeyError>)
        ensures
            match assignment {
                Ok(bytes) => {
                    &&& self.admits(value@, Ok(()))
                    &&& subsection_fits(self.requirement(), Some(subsection@))
                    &&& bytes@ == assignment_of(
                        full_name_of(self.section_id(), Some(subsection@), self.name_view()),
                        value@,
                    )
                },
                Err(error) => {
                    ||| self.admits(value@, Err(error))
                    ||| {
                        &&& self.admits(value@, Ok(()))
                        &&& !subsection_fits(self.requirement(), Some(subsection@))
                        &&& misfit(
                            logical_name_of(
                                self.section_id(),
                                self.requirement(),
                                self.name_view(),
                            ),
                            true,
                            error,
                        )
                    }
                },
            },
    {
        let outcome = self.validate(value);
        let ghost validated = outcome;
        if let Err(error) = outcome {
            return Err(error);
        }
        assert(validated is Ok);
        assert(validated->Ok_0 == ());
        assert(validated == Ok::<(), KeyError>(()));
        let mut key = match self.full_name(Some(subsection)) {
            Ok(key) => key,
            Err(error) => {
                return Err(error);
            },
        };
        key.push(EQUALS);
        bytes::append(&mut key, value);
        Ok(key)
    }
}

} // verus!

//! Generic value implementations for static instantiation.
use std::time::SystemTime;
use vstd::prelude::*;
use vstd::utf8::decode_utf8;
use vstd::utf8::valid_utf8;

use crate::bytes;
use crate::config::tree::registry::Descriptor;
use crate::config::tree::registry::KeyId;
use crate::config::tree::registry::SectionId;
use crate::config::tree::traits::Key;
use crate::config::tree::traits::KeyError;
use crate::config::tree::traits::Link;
use crate::config::tree::traits::SubSectionRequirement;
use crate::date::DateError;
use crate::date;

pub mod validate;

verus! {

/// Provide a way to validate a value, or decode a value from `git-config`.
pub trait Validate {
    /// Whether validating `value` may end with `outcome`.
    spec fn admits(&self, value: Seq<u8>, outcome: Result<(), KeyError>) -> bool;

    /// Validate `value` or return an error.
    fn validate(&self, value: &[u8]) -> (outcome: Result<(), KeyError>)
        ensures
            self.admits(value@, outcome),
    ;
}

/// Implements a value without any constraints, i.e. a any value.
pub struct Any<T: Validate = validate::All> {
    /// The key of the value in the git configuration.
    pub name: &'static str,
    /// The parent section of the key.
    pub section: SectionId,
    /// The subsection requirement to use.
    pub subsection_requirement: Option<SubSectionRequirement>,
    /// A link to other resources that might be eligible as value.
    pub link: Option<Link>,
    /// The way validation and transformation should happen.
    pub validate: T,
}

/// Init
impl Any<validate::All> {
    /// Create a new instance from `name` and `section`
    pub fn new(name: &'static str, section: SectionId) -> (key: Self)
        ensures
            key.name == name,
            key.section == section,
            key.subsection_requirement == Some(SubSectionRequirement::Never),
            key.link.is_none(),
    {
        Any::new_with_validate(name, section, validate::All)
    }
}

/// Init other validate implementations
impl<T: Validate> Any<T> {
    /// Create a new instance from `name` and `section`
    pub fn new_with_validate(name: &'static str, section: SectionId, validate: T) -> (key: Self)
        ensures
            key.name == name,
            key.section == section,
            key.subsection_requirement == Some(SubSectionRequirement::Never),
            key.link.is_none(),
            key.validate == validate,
    {
        Any {
            name,
            section,
            subsection_requirement: Some(SubSectionRequirement::Never),
            link: None,
            validate,
        }
    }
}

/// Builder
impl<T: Validate> Any<T> {
    /// Set the subsection requirement to non-default values.
    pub fn with_subsection_requirement(self, requirement: Option<SubSectionRequirement>) -> (key:
        Self)
        ensures
            key.subsection_requirement == requirement,
            key.name == self.name,
            key.section == self.section,
            key.link == self.link,
            key.validate == self.validate,
    {
        let mut key = self;
        key.subsection_requirement = requirement;
        key
    }

    /// Associate an environment variable with this key.
    ///
    /// This is mainly useful for enriching error messages.
    pub fn with_environment_override(self, var: &'static str) -> (key: Self)
        ensures
            key.link == Some(Link::EnvironmentOverride(var)),
            key.name == self.name,
            key.section == self.section,
            key.subsection_requirement == self.subsection_requirement,
            key.validate == self.validate,
    {
        let mut key = self;
        key.link = Some(Link::EnvironmentOverride(var));
        key
    }

    /// Set a link to another key which serves as fallback to provide a value
    /// if this key is not set.
    pub fn with_fallback(self, key: KeyId) -> (linked: Self)
        ensures
            linked.link == Some(Link::FallbackKey(key)),
            linked.name == self.name,
            linked.section == self.section,
            linked.subsection_requirement == self.subsection_requirement,
            linked.validate == self.validate,
    {
        let mut linked = self;
        linked.link = Some(Link::FallbackKey(key));
        linked
    }

    /// What the key is, apart from the values it takes.
    pub open spec fn described(&self) -> Descriptor {
        Descriptor {
            name: self.name,
            section: self.section,
            subsection_requirement: self.subsection_requirement,
            link: self.link,
        }
    }

    /// Tell what the key is, apart from the values it takes.
    pub fn descriptor(&self) -> (descriptor: Descriptor)
        ensures
            descriptor == self.described(),
    {
        Descriptor {
            name: self.name,
            section: self.section,
            subsection_requirement: self.subsection_requirement,
            link: self.link,
        }
    }
}

impl<T: Validate> Key for Any<T> {
    open spec fn name_view(&self) -> Seq<char> {
        self.name@
    }

    open spec fn section_id(&self) -> SectionId {
        self.section
    }

    open spec fn requirement(&self) -> Option<SubSectionRequirement> {
        self.subsection_requirement
    }

    open spec fn link_to(&self) -> Option<Link> {
        self.link
    }

    open spec fn admits(&self, value: Seq<u8>, outcome: Result<(), KeyError>) -> bool {
        self.validate.admits(value, outcome)
    }

    fn name(&self) -> (name: &str) {
        self.name
    }

    fn validate(&self, value: &[u8]) -> (outcome: Result<(), KeyError>) {
        self.validate.validate(value)
    }

    fn section(&self) -> (section: SectionId) {
        self.section
    }

    fn subsection_requirement(&self) -> (requirement: Option<SubSectionRequirement>) {
        self.subsection_requirement
    }

    fn link(&self) -> (link: Option<Link>) {
        self.link
    }
}

/// A key which represents a date.
pub type Time = Any<validate::Time>;

/// A key that represents a remote name.
pub type RemoteName = Any<validate::RemoteName>;

impl Time {
    /// Create a new instance.
    pub fn new_time(name: &'static str, section: SectionId) -> (key: Self)
        ensures
            key.described() == crate::config::tree::registry::plain(name, section),
    {
        Self::new_with_validate(name, section, validate::Time)
    }

    /// Convert the `value` into a date if possible, with `now` as reference
    /// time for relative dates.
    ///
    /// A value that is not valid UTF-8 is no date. For any other value the
    /// outcome is that of reading its text as a date, which depends on `now`
    /// only for text that names a time relative to it.
    pub fn try_into_time(&self, value: &[u8], now: Option<SystemTime>) -> (time: Result<
        date::Time,
        DateError,
    >)
        ensures
            !valid_utf8(value@) ==> time == Err::<date::Time, DateError>(
                DateError::InvalidDateString,
            ),
            valid_utf8(value@) ==> date::may_parse_to(decode_utf8(value@), now is Some, time),
    {
        match bytes::to_str(value) {
            Ok(text) => date::parse(text, now),
            Err(_) => Err(DateError::InvalidDateString),
        }
    }
}

impl RemoteName {
    /// Create a new instance.
    pub fn new_remote_name(name: &'static str, section: SectionId) -> (key: Self)
        ensures
            key.described() == crate::config::tree::registry::plain(name, section),
    {
        Self::new_with_validate(name, section, validate::RemoteName)
    }
}

} // verus!

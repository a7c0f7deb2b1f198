//! How the values of the keys of the `branch` section are validated.
use vstd::prelude::*;

use crate::config::tree::keys;
use crate::config::tree::traits::KeyError;
use crate::refname;

verus! {

/// Values that are full names of references are valid.
pub struct FullNameRef;

impl keys::Validate for FullNameRef {
    open spec fn admits(&self, value: Seq<u8>, outcome: Result<(), KeyError>) -> bool {
        if refname::is_name(value) {
            outcome is Ok
        } else {
            outcome matches Err(KeyError::ReferenceName(_))
        }
    }

    fn validate(&self, value: &[u8]) -> (outcome: Result<(), KeyError>) {
        match crate::config::tree::sections::branch::Merge::try_into_fullrefname(value) {
            Ok(_) => Ok(()),
            Err(error) => Err(KeyError::ReferenceName(error)),
        }
    }
}

} // verus!

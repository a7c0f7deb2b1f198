//! How the values of the keys of the `checkout` section are validated.
use vstd::prelude::*;

use crate::config::tree::keys;
use crate::config::tree::traits::KeyError;

verus! {

/// Values that are an amount of threads are valid.
pub struct Workers;

impl keys::Validate for Workers {
    open spec fn admits(&self, value: Seq<u8>, outcome: Result<(), KeyError>) -> bool {
        outcome matches Err(KeyError::Unsupported)
    }

    fn validate(&self, value: &[u8]) -> (outcome: Result<(), KeyError>) {
        match crate::config::tree::sections::checkout::Workers::try_into_thread_count(value) {
            Ok(()) => Ok(()),
            Err(error) => Err(error),
        }
    }
}

} // verus!

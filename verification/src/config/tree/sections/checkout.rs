//! The `checkout` section.
use vstd::prelude::*;

use crate::config::tree::keys;
use crate::config::tree::registry::KeyId;
use crate::config::tree::registry::SectionId;
use crate::config::tree::sections::Checkout;
use crate::config::tree::traits::KeyError;
use crate::config::tree::traits::Section;

pub mod validate;

verus! {

impl Checkout {
    /// The `checkout.workers` key.
    pub const WORKERS: KeyId = KeyId::CheckoutWorkers;

    /// What the `checkout.workers` key is.
    pub fn workers_key() -> (key: Workers)
        ensures
            key.described() == KeyId::CheckoutWorkers.described(),
    {
        Workers::new_with_validate("workers", SectionId::Checkout, validate::Workers)
    }
}

/// The `checkout.workers` key.
pub type Workers = keys::Any<validate::Workers>;

impl Section for Checkout {
    open spec fn name_view(&self) -> Seq<char> {
        "checkout"@
    }

    open spec fn key_ids(&self) -> Seq<KeyId> {
        seq![KeyId::CheckoutWorkers]
    }

    open spec fn sub_section_ids(&self) -> Seq<SectionId> {
        seq![]
    }

    open spec fn parent_id(&self) -> Option<SectionId> {
        None
    }

    fn name(&self) -> (name: &str) {
        "checkout"
    }

    fn keys(&self) -> (keys: Vec<KeyId>) {
        let keys = vec![KeyId::CheckoutWorkers];
        assert(keys@ =~= self.key_ids());
        keys
    }

    fn sub_sections(&self) -> (sections: Vec<SectionId>) {
        let sections = vec![];
        assert(sections@ =~= self.sub_section_ids());
        sections
    }

    fn parent(&self) -> (parent: Option<SectionId>) {
        None
    }
}

impl Workers {
    /// Return the amount of threads to use for checkout, with `0` meaning all
    /// available ones.
    ///
    /// No value can be taken for an amount of threads so far, which is what
    /// the error says.
    pub fn try_into_thread_count(_value: &[u8]) -> (count: Result<(), KeyError>)
        ensures
            count matches Err(KeyError::Unsupported),
    {
        Err(KeyError::Unsupported)
    }
}

} // verus!

//! Names of references.
use vstd::prelude::*;

verus! {

/// The error of `git_validate`, which says why a name is no reference name.
#[verifier::external_type_specification]
#[verifier::external_body]
pub struct ExNameError(git_validate::reference::name::Error);

/// Whether `name` is a complete reference name, like `refs/heads/main` or
/// `HEAD`.
pub uninterp spec fn is_name(name: Seq<u8>) -> bool;

/// `git_validate::reference::name`: checks that `name` is a complete
/// reference name, and says why if it is not.
#[verifier::external_body]
pub(crate) fn check_name(name: &[u8]) -> (checked: Result<(), git_validate::reference::name::Error>)
    ensures
        checked is Ok <==> is_name(name@),
{
    git_validate::reference::name(name.into()).map(|_| ())
}

} // verus!

//! The reasons a registry operation can refuse to run.

use vstd::prelude::*;

verus! {

/// Why a mutation of the registry was refused.
///
/// Every refusal aborts the whole operation: the hosting transaction rolls
/// back, so a refused call leaves no trace in the records.
#[derive(Clone, Copy, Debug, PartialEq, Eq, Structural)]
pub enum RegistryError {
    /// The caller did not present authorization bound to this call's arguments.
    AuthorizationError,
    /// The username's length lies outside the accepted range.
    ValidationError,
    /// A claim found that the owner already holds a record.
    ConflictError,
    /// A change found no record to overwrite.
    NotFoundError,
}

impl RegistryError {
    /// The message that identifies this error kind to the caller whose
    /// transaction failed.
    pub fn message(&self) -> (r: &'static str)
        ensures
            *self == RegistryError::AuthorizationError ==> r@ == "Caller is not authorized for this call"@,
            *self == RegistryError::ValidationError ==> r@ == "Username must be 3-20 characters"@,
            *self == RegistryError::ConflictError ==> r@ == "Address already has a username"@,
            *self == RegistryError::NotFoundError ==> r@ == "No username to change"@,
    {
        match self {
            RegistryError::AuthorizationError => "Caller is not authorized for this call",
            RegistryError::ValidationError => "Username must be 3-20 characters",
            RegistryError::ConflictError => "Address already has a username",
            RegistryError::NotFoundError => "No username to change",
        }
    }
}

} // verus!

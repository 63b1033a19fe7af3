//! The ways an operation can be rejected.

use vstd::prelude::*;

verus! {

/// Why an operation was rejected. Every rejection is final for the call in
/// which it occurs and leaves the ledger as it was.
#[derive(Clone, Copy, Debug, PartialEq, Eq, Structural)]
pub enum CredentialError {
    /// The mint registry, or the region that was to become a mint, is
    /// initialized already.
    AlreadyInitialized,
    /// No mint registry exists at the given address.
    MintNotInitialized,
    /// The caller is not the registry's mint authority.
    Unauthorized,
    /// The storage for the registry could not be allocated: the region is
    /// not the canonical one, or the payer cannot cover it.
    AllocationFailed,
    /// The recipient's holding account could neither be created nor reused.
    RecipientAccountCreationFailed,
    /// The non-transferability flag was set on a region that is already a mint.
    ExtensionOrderViolation,
}

impl CredentialError {
    /// A short sentence for the error, for callers that report it.
    pub fn message(&self) -> (text: String)
        ensures
            text@ == self.spec_message(),
    {
        match self {
            CredentialError::AlreadyInitialized => {
                "the mint is initialized already".to_string()
            },
            CredentialError::MintNotInitialized => {
                "no mint registry exists at that address".to_string()
            },
            CredentialError::Unauthorized => {
                "the caller is not the mint authority".to_string()
            },
            CredentialError::AllocationFailed => {
                "storage for the registry could not be allocated".to_string()
            },
            CredentialError::RecipientAccountCreationFailed => {
                "the holding account could not be created".to_string()
            },
            CredentialError::ExtensionOrderViolation => {
                "the flag must be set before the mint is initialized".to_string()
            },
        }
    }

    /// The text of [`CredentialError::message`].
    pub open spec fn spec_message(&self) -> Seq<char> {
        match self {
            CredentialError::AlreadyInitialized => {
                "the mint is initialized already"@
            },
            CredentialError::MintNotInitialized => {
                "no mint registry exists at that address"@
            },
            CredentialError::Unauthorized => {
                "the caller is not the mint authority"@
            },
            CredentialError::AllocationFailed => {
                "storage for the registry could not be allocated"@
            },
            CredentialError::RecipientAccountCreationFailed => {
                "the holding account could not be created"@
            },
            CredentialError::ExtensionOrderViolation => {
                "the flag must be set before the mint is initialized"@
            },
        }
    }
}

} // verus!

//! Non-transferable credential tokens: one canonical mint, created once, and
//! an authority that issues single units into per-recipient holding accounts.
//!
//! The crate is a verified model of that lifecycle. Every operation is a
//! function on a [`Ledger`] whose contract states the next state and the
//! result exactly; the general properties of the design are proved in
//! [`laws`].

pub mod address;
pub mod error;
pub mod instructions;
pub mod laws;
pub mod ledger;
pub mod model;
pub mod registry;
pub mod storage;

pub use address::Address;
pub use error::CredentialError;
pub use instructions::{
    initialize_credential_mint, issue_credential, issue_credential_at, InitializeCredentialMint,
    IssueCredential, Signer,
};
pub use ledger::{CredentialAccount, Ledger};
pub use registry::{MintRegion, MintRegistry};

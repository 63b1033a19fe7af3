//! The two operations: initializing the credential mint, and issuing one
//! credential to a recipient.

use crate::address::{address_view, credential_account_address, Address};
use crate::error::CredentialError;
use crate::ledger::Ledger;
use crate::model::{initialize_step, issue, issue_step, InitializeModel, IssueModel};
use crate::registry::MintRegion;
use crate::storage::{covers_record, ACCOUNT_FIELDS, MINT_FIELDS};
use vstd::prelude::*;

verus! {

/// Decimal places of a credential: none, a credential is a whole unit.
pub const CREDENTIAL_DECIMALS: u8 = 0;

/// Units issued by one call.
pub const CREDENTIAL_UNIT: u64 = 1;

/// An identity whose signature the host has checked, with what it can spend
/// on storage.
#[derive(Clone, Copy, Debug)]
pub struct Signer {
    /// The identity.
    pub key: Address,
    /// What it can spend.
    pub funds: u64,
}

/// What a request to initialize the credential mint names.
#[derive(Clone, Copy, Debug)]
pub struct InitializeCredentialMint {
    /// The storage region that is to become the registry.
    pub mint: Address,
    /// The identity that pays for the registry's storage.
    pub payer: Signer,
}

impl View for InitializeCredentialMint {
    type V = InitializeModel;

    open spec fn view(&self) -> InitializeModel {
        InitializeModel {
            mint: self.mint@,
            payer: self.payer.key@,
            payer_funds: self.payer.funds as nat,
        }
    }
}

/// What a request to issue one credential names.
#[derive(Clone, Copy, Debug)]
pub struct IssueCredential {
    /// The mint to issue from.
    pub mint: Address,
    /// The identity that asks for the issuance; it pays for a new account.
    pub authority: Signer,
    /// The address given for the recipient's holding account.
    pub recipient_ata: Address,
    /// The recipient of the credential.
    pub recipient: Signer,
}

impl View for IssueCredential {
    type V = IssueModel;

    open spec fn view(&self) -> IssueModel {
        IssueModel {
            mint: self.mint@,
            authority: self.authority.key@,
            authority_funds: self.authority.funds as nat,
            recipient_ata: self.recipient_ata@,
            recipient: self.recipient.key@,
        }
    }
}

/// Creates the mint registry at the canonical address.
///
/// The region is allocated, the non-transferability flag is set on it, and
/// only then is it initialized as a mint with no decimals and with its own
/// address as mint and freeze authority. The call fails with
/// `AlreadyInitialized` when the registry exists already; else with
/// `AllocationFailed` when `ctx.mint` is not the canonical address or the
/// payer cannot cover the storage. A failed call changes nothing. It never
/// fails with `ExtensionOrderViolation`, because it keeps the order.
pub fn initialize_credential_mint(ledger: &mut Ledger, ctx: &InitializeCredentialMint) -> (result:
    Result<(), CredentialError>)
    requires
        old(ledger).well_formed(),
    ensures
        final(ledger).well_formed(),
        (final(ledger)@, result) == initialize_step(old(ledger)@, ctx@),
{
    if ledger.registry().is_some() {
        return Err(CredentialError::AlreadyInitialized);
    }
    if ctx.mint != ledger.mint_address() || !covers_record(
        ctx.payer.funds,
        ledger.storage_price(),
        MINT_FIELDS,
    ) {
        return Err(CredentialError::AllocationFailed);
    }
    let mut region = MintRegion::reserve();
    if let Err(refused) = region.set_non_transferable() {
        return Err(refused);
    }
    if let Err(refused) = region.initialize_mint(CREDENTIAL_DECIMALS, &ctx.mint, &ctx.mint) {
        return Err(refused);
    }
    match region.registry() {
        Some(registry) => {
            ledger.install_registry(registry);
            Ok(())
        },
        None => Err(CredentialError::AllocationFailed),
    }
}

/// Issues one credential to the recipient, where `derived` is the address
/// derived for the recipient's holding account.
///
/// The call fails with `MintNotInitialized` when no registry exists at
/// `ctx.mint`; else with `Unauthorized` when `ctx.authority` is not the
/// registry's mint authority; else with `RecipientAccountCreationFailed` when
/// no address was derived, when it is not `ctx.recipient_ata`, when the
/// account there belongs to someone else, or when there is none and the place
/// is taken by the registry or the authority cannot pay for the record. A
/// failed call changes nothing. Otherwise the account is made if it was
/// missing, and it and the supply grow by one unit.
pub fn issue_credential_at(
    ledger: &mut Ledger,
    ctx: &IssueCredential,
    derived: Option<Address>,
) -> (result: Result<(), CredentialError>)
    requires
        old(ledger).well_formed(),
        old(ledger)@.supply() < u64::MAX,
    ensures
        final(ledger).well_formed(),
        (final(ledger)@, result) == issue_step(old(ledger)@, ctx@, address_view(derived)),
{
    let registry = match ledger.registry() {
        Some(registry) => registry,
        None => {
            return Err(CredentialError::MintNotInitialized);
        },
    };
    if ctx.mint != ledger.mint_address() {
        return Err(CredentialError::MintNotInitialized);
    }
    if ctx.authority.key != registry.mint_authority() {
        return Err(CredentialError::Unauthorized);
    }
    let address = match derived {
        Some(address) => address,
        None => {
            return Err(CredentialError::RecipientAccountCreationFailed);
        },
    };
    if address != ctx.recipient_ata {
        return Err(CredentialError::RecipientAccountCreationFailed);
    }
    match ledger.account(&address) {
        Some(account) => {
            if account.owner() != ctx.recipient.key {
                return Err(CredentialError::RecipientAccountCreationFailed);
            }
        },
        None => {
            if address == ledger.mint_address() || !covers_record(
                ctx.authority.funds,
                ledger.storage_price(),
                ACCOUNT_FIELDS,
            ) {
                return Err(CredentialError::RecipientAccountCreationFailed);
            }
            ledger.open_account(&address, &ctx.recipient.key);
        },
    }
    ledger.credit_account(&address);
    proof {
        let expected = old(ledger)@.credited(address@, ctx.recipient.key@);
        assert(ledger@.accounts =~= expected.accounts);
    }
    Ok(())
}

/// Issues one credential to the recipient. The address of the holding account
/// is derived from the recipient, the mint and the ledger's two services; the
/// rest is [`issue_credential_at`].
pub fn issue_credential(ledger: &mut Ledger, ctx: &IssueCredential) -> (result: Result<
    (),
    CredentialError,
>)
    requires
        old(ledger).well_formed(),
        old(ledger)@.supply() < u64::MAX,
    ensures
        final(ledger).well_formed(),
        (final(ledger)@, result) == issue(old(ledger)@, ctx@),
{
    let derived = credential_account_address(
        &ctx.recipient.key,
        &ctx.mint,
        &ledger.token_program(),
        &ledger.associated_token_program(),
    );
    issue_credential_at(ledger, ctx, derived)
}

} // verus!

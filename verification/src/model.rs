//! The ledger as a mathematical object, and what each operation does to it.
//!
//! The executable operations are specified by the step functions of this
//! module: a call takes the ledger from `l` to the first component of the
//! step and returns its second component.

use crate::address::spec_credential_account_address;
use crate::error::CredentialError;
use crate::registry::RegistryModel;
use crate::instructions::{CREDENTIAL_DECIMALS, CREDENTIAL_UNIT};
use crate::storage::{record_cost, ACCOUNT_FIELDS, MINT_FIELDS};
use vstd::prelude::*;

verus! {

/// What a credential account holds.
pub struct AccountModel {
    /// The recipient the account belongs to.
    pub owner: Seq<u8>,
    /// The mint whose units it holds.
    pub mint: Seq<u8>,
    /// Units held.
    pub balance: nat,
}

/// The state of the ledger.
pub struct LedgerModel {
    /// The canonical address of the mint registry.
    pub mint_address: Seq<u8>,
    /// The token service that keeps the records.
    pub token_program: Seq<u8>,
    /// The service that derives and creates holding accounts.
    pub associated_token_program: Seq<u8>,
    /// What the host asks per byte of storage.
    pub storage_price: nat,
    /// The mint registry, once it is initialized.
    pub registry: Option<RegistryModel>,
    /// The credential accounts, by address.
    pub accounts: Map<Seq<u8>, AccountModel>,
}

/// A request to initialize the mint registry.
pub struct InitializeModel {
    /// The storage region that is to become the registry.
    pub mint: Seq<u8>,
    /// The identity that pays for the storage.
    pub payer: Seq<u8>,
    /// What the payer can spend.
    pub payer_funds: nat,
}

/// A request to issue one credential.
pub struct IssueModel {
    /// The mint to issue from.
    pub mint: Seq<u8>,
    /// The identity that asks for the issuance, and pays for a new account.
    pub authority: Seq<u8>,
    /// What the authority can spend.
    pub authority_funds: nat,
    /// The address given for the recipient's holding account.
    pub recipient_ata: Seq<u8>,
    /// The recipient.
    pub recipient: Seq<u8>,
}

/// The registry right after initialization: whole units only, its own
/// address as both authorities, nothing issued, never transferable.
pub open spec fn fresh_registry(mint_address: Seq<u8>) -> RegistryModel {
    RegistryModel {
        decimals: CREDENTIAL_DECIMALS as nat,
        mint_authority: mint_address,
        freeze_authority: mint_address,
        supply: 0,
        non_transferable: true,
    }
}

impl LedgerModel {
    /// The ledger before anything happened.
    pub open spec fn empty(
        mint_address: Seq<u8>,
        token_program: Seq<u8>,
        associated_token_program: Seq<u8>,
        storage_price: nat,
    ) -> LedgerModel {
        LedgerModel {
            mint_address,
            token_program,
            associated_token_program,
            storage_price,
            registry: None,
            accounts: Map::empty(),
        }
    }

    /// Whether a record exists at `address`.
    pub open spec fn occupied(self, address: Seq<u8>) -> bool {
        (address == self.mint_address && self.registry is Some) || self.accounts.dom().contains(
            address,
        )
    }

    /// The units held at `address`; none where there is no account.
    pub open spec fn balance(self, address: Seq<u8>) -> nat {
        if self.accounts.dom().contains(address) {
            self.accounts[address].balance
        } else {
            0
        }
    }

    /// The units issued so far; none before initialization.
    pub open spec fn supply(self) -> nat {
        match self.registry {
            Some(registry) => registry.supply,
            None => 0,
        }
    }

    /// What holds of every ledger that the operations can reach.
    pub open spec fn valid(self) -> bool {
        &&& self.accounts.dom().finite()
        &&& !self.accounts.dom().contains(self.mint_address)
        &&& self.registry is None ==> self.accounts.dom().is_empty()
        &&& self.registry matches Some(registry) ==> {
            &&& registry.decimals == CREDENTIAL_DECIMALS
            &&& registry.non_transferable
            &&& registry.mint_authority == self.mint_address
            &&& registry.freeze_authority == self.mint_address
        }
        &&& forall|address: Seq<u8>| #[trigger]
            self.accounts.dom().contains(address) ==> {
                &&& self.accounts[address].mint == self.mint_address
                &&& self.accounts[address].balance <= self.supply()
            }
    }

    /// The address derived for the holding account of `owner` on this ledger.
    pub open spec fn holding_address(self, owner: Seq<u8>) -> Option<Seq<u8>> {
        spec_credential_account_address(
            owner,
            self.mint_address,
            self.token_program,
            self.associated_token_program,
        )
    }

    /// Whether every account stands at the address derived for its owner.
    pub open spec fn accounts_derived(self) -> bool {
        forall|address: Seq<u8>| #[trigger]
            self.accounts.dom().contains(address) ==> self.holding_address(
                self.accounts[address].owner,
            ) == Some(address)
    }

    /// The ledger after `address` was credited with one unit for `recipient`,
    /// an account being made there if there was none.
    pub open spec fn credited(self, address: Seq<u8>, recipient: Seq<u8>) -> LedgerModel {
        let held = self.balance(address);
        LedgerModel {
            registry: Some(
                RegistryModel {
                    supply: self.supply() + CREDENTIAL_UNIT as nat,
                    ..self.registry.unwrap()
                },
            ),
            accounts: self.accounts.insert(
                address,
                AccountModel {
                    owner: recipient,
                    mint: self.mint_address,
                    balance: held + CREDENTIAL_UNIT as nat,
                },
            ),
            ..self
        }
    }

    /// Whether the account at the derived address can take the credit: the
    /// address was derived and is the one given; the account there, if any,
    /// is the recipient's; and where there is none, the place is free and
    /// the authority can pay for the new record.
    pub open spec fn account_ready(self, request: IssueModel, derived: Option<Seq<u8>>) -> bool {
        &&& derived matches Some(address)
        &&& address == request.recipient_ata
        &&& if self.accounts.dom().contains(address) {
            self.accounts[address].owner == request.recipient
        } else {
            &&& address != self.mint_address
            &&& request.authority_funds >= record_cost(self.storage_price, ACCOUNT_FIELDS as nat)
        }
    }
}

/// Initialization: the ledger after the request, and the answer.
///
/// The request fails with `AlreadyInitialized` when the registry exists
/// already, whatever address is given; else with `AllocationFailed` when the
/// given address is not the canonical one or the payer cannot cover the
/// registry's storage. Otherwise the registry is made at the canonical
/// address.
pub open spec fn initialize_step(ledger: LedgerModel, request: InitializeModel) -> (
    LedgerModel,
    Result<(), CredentialError>,
) {
    if ledger.registry is Some {
        (ledger, Err(CredentialError::AlreadyInitialized))
    } else if request.mint != ledger.mint_address || request.payer_funds < record_cost(
        ledger.storage_price,
        MINT_FIELDS as nat,
    ) {
        (ledger, Err(CredentialError::AllocationFailed))
    } else {
        (LedgerModel { registry: Some(fresh_registry(ledger.mint_address)), ..ledger }, Ok(()))
    }
}

/// Issuance: the ledger after the request, and the answer, where `derived`
/// is the address derived for the recipient's holding account.
///
/// The request fails with `MintNotInitialized` when no registry exists at the
/// given mint address, then with `Unauthorized` when the authority is not the
/// registry's mint authority, then with `RecipientAccountCreationFailed`
/// when the holding account can neither be reused nor created. Otherwise the
/// account holds one unit more, and so does the registry's supply.
pub open spec fn issue_step(ledger: LedgerModel, request: IssueModel, derived: Option<Seq<u8>>) -> (
    LedgerModel,
    Result<(), CredentialError>,
) {
    if ledger.registry is None || request.mint != ledger.mint_address {
        (ledger, Err(CredentialError::MintNotInitialized))
    } else if request.authority != ledger.registry.unwrap().mint_authority {
        (ledger, Err(CredentialError::Unauthorized))
    } else if !ledger.account_ready(request, derived) {
        (ledger, Err(CredentialError::RecipientAccountCreationFailed))
    } else {
        (ledger.credited(derived.unwrap(), request.recipient), Ok(()))
    }
}

/// Issuance with the holding account's address derived from the recipient,
/// the given mint and the two services of the ledger.
pub open spec fn issue(ledger: LedgerModel, request: IssueModel) -> (
    LedgerModel,
    Result<(), CredentialError>,
) {
    issue_step(
        ledger,
        request,
        spec_credential_account_address(
            request.recipient,
            request.mint,
            ledger.token_program,
            ledger.associated_token_program,
        ),
    )
}

/// One call of an operation. An issuance carries the address that was
/// derived for the recipient's holding account.
pub enum Request {
    /// A call to initialize the mint registry.
    Initialize(InitializeModel),
    /// A call to issue one credential.
    Issue(IssueModel, Option<Seq<u8>>),
}

/// The ledger after one call, and the answer to it.
pub open spec fn step(ledger: LedgerModel, request: Request) -> (
    LedgerModel,
    Result<(), CredentialError>,
) {
    match request {
        Request::Initialize(r) => initialize_step(ledger, r),
        Request::Issue(r, derived) => issue_step(ledger, r, derived),
    }
}

/// Whether the call, if it is an issuance, carries the address derived for
/// its recipient and mint, as [`issue`] does.
pub open spec fn derives(ledger: LedgerModel, request: Request) -> bool {
    request matches Request::Issue(r, derived) ==> derived == spec_credential_account_address(
        r.recipient,
        r.mint,
        ledger.token_program,
        ledger.associated_token_program,
    )
}

/// The ledger after a sequence of calls, made one after the other.
pub open spec fn run(ledger: LedgerModel, requests: Seq<Request>) -> LedgerModel
    decreases requests.len(),
{
    if requests.len() == 0 {
        ledger
    } else {
        step(run(ledger, requests.drop_last()), requests.last()).0
    }
}

/// Whether the call is an initialization that succeeds on `ledger`.
pub open spec fn initializes(ledger: LedgerModel, request: Request) -> bool {
    request is Initialize && step(ledger, request).1 is Ok
}

/// Whether the call is an issuance that succeeds on `ledger`.
pub open spec fn issues(ledger: LedgerModel, request: Request) -> bool {
    request is Issue && step(ledger, request).1 is Ok
}

/// Whether the call is an issuance that succeeds on `ledger` and credits the
/// account at `address`.
pub open spec fn credits(ledger: LedgerModel, request: Request, address: Seq<u8>) -> bool {
    issues(ledger, request) && request->Issue_1 == Some(address)
}

/// How many calls of the sequence are initializations that succeed.
pub open spec fn initializations(ledger: LedgerModel, requests: Seq<Request>) -> nat
    decreases requests.len(),
{
    if requests.len() == 0 {
        0
    } else {
        let before = requests.drop_last();
        initializations(ledger, before) + if initializes(run(ledger, before), requests.last()) {
            1nat
        } else {
            0nat
        }
    }
}

/// How many calls of the sequence are issuances that succeed.
pub open spec fn issuances(ledger: LedgerModel, requests: Seq<Request>) -> nat
    decreases requests.len(),
{
    if requests.len() == 0 {
        0
    } else {
        let before = requests.drop_last();
        issuances(ledger, before) + if issues(run(ledger, before), requests.last()) {
            1nat
        } else {
            0nat
        }
    }
}

/// How many calls of the sequence are issuances that succeed and credit the
/// account at `address`.
pub open spec fn issuances_to(ledger: LedgerModel, requests: Seq<Request>, address: Seq<u8>) -> nat
    decreases requests.len(),
{
    if requests.len() == 0 {
        0
    } else {
        let before = requests.drop_last();
        issuances_to(ledger, before, address) + if credits(
            run(ledger, before),
            requests.last(),
            address,
        ) {
            1nat
        } else {
            0nat
        }
    }
}

} // verus!

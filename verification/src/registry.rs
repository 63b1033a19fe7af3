//! The mint registry and the storage region it is made in.
//!
//! A region becomes a registry in two steps whose order is fixed: the
//! non-transferability flag is set first, then the region is initialized as a
//! mint. The token service accepts the flag only on a region that is not yet
//! a mint, and a mint keeps the flag it was initialized with.

use crate::address::Address;
use crate::error::CredentialError;
use crate::instructions::CREDENTIAL_UNIT;
use vstd::prelude::*;

verus! {

/// What a mint registry holds, as plain mathematical values.
pub struct RegistryModel {
    /// Decimal places of an amount.
    pub decimals: nat,
    /// The identity that may mint.
    pub mint_authority: Seq<u8>,
    /// The identity that may freeze.
    pub freeze_authority: Seq<u8>,
    /// Units issued so far.
    pub supply: nat,
    /// Whether units of this mint can never be transferred.
    pub non_transferable: bool,
}

/// The record of the credential type.
#[derive(Clone, Copy, Debug)]
pub struct MintRegistry {
    decimals: u8,
    mint_authority: Address,
    freeze_authority: Address,
    supply: u64,
    non_transferable: bool,
}

impl View for MintRegistry {
    type V = RegistryModel;

    closed spec fn view(&self) -> RegistryModel {
        RegistryModel {
            decimals: self.decimals as nat,
            mint_authority: self.mint_authority@,
            freeze_authority: self.freeze_authority@,
            supply: self.supply as nat,
            non_transferable: self.non_transferable,
        }
    }
}

impl MintRegistry {
    /// The registry record with the given contents, as a host that keeps the
    /// records hands it over.
    pub fn new(
        decimals: u8,
        mint_authority: Address,
        freeze_authority: Address,
        supply: u64,
        non_transferable: bool,
    ) -> (registry: MintRegistry)
        ensures
            registry@ == (RegistryModel {
                decimals: decimals as nat,
                mint_authority: mint_authority@,
                freeze_authority: freeze_authority@,
                supply: supply as nat,
                non_transferable,
            }),
    {
        MintRegistry { decimals, mint_authority, freeze_authority, supply, non_transferable }
    }

    /// Decimal places of an amount.
    pub fn decimals(&self) -> (decimals: u8)
        ensures
            decimals == self@.decimals,
    {
        self.decimals
    }

    /// The identity that may mint.
    pub fn mint_authority(&self) -> (authority: Address)
        ensures
            authority@ == self@.mint_authority,
    {
        self.mint_authority
    }

    /// The identity that may freeze.
    pub fn freeze_authority(&self) -> (authority: Address)
        ensures
            authority@ == self@.freeze_authority,
    {
        self.freeze_authority
    }

    /// Units issued so far.
    pub fn supply(&self) -> (supply: u64)
        ensures
            supply == self@.supply,
    {
        self.supply
    }

    /// Whether units of this mint can never be transferred.
    pub fn is_non_transferable(&self) -> (flag: bool)
        ensures
            flag == self@.non_transferable,
    {
        self.non_transferable
    }

    /// The registry after one more unit was issued.
    pub(crate) fn with_unit_issued(&self) -> (next: MintRegistry)
        requires
            self@.supply < u64::MAX,
        ensures
            next@ == (RegistryModel { supply: self@.supply + CREDENTIAL_UNIT as nat, ..self@ }),
    {
        MintRegistry { supply: self.supply + CREDENTIAL_UNIT, ..*self }
    }
}

/// The plain form of a registry that may be missing.
pub open spec fn registry_view(registry: Option<MintRegistry>) -> Option<RegistryModel> {
    match registry {
        Some(r) => Some(r@),
        None => None,
    }
}

/// A storage region on its way to being a mint, as plain values.
pub enum RegionModel {
    /// Allocated, not yet a mint; the flag may still be set.
    Reserved { non_transferable: bool },
    /// A mint.
    Initialized { registry: RegistryModel },
}

/// The region after a request to set the non-transferability flag, and the
/// answer to the request. A region that is already a mint refuses.
pub open spec fn flag_step(region: RegionModel) -> (RegionModel, Result<(), CredentialError>) {
    match region {
        RegionModel::Reserved { .. } => (RegionModel::Reserved { non_transferable: true }, Ok(())),
        RegionModel::Initialized { .. } => (region, Err(CredentialError::ExtensionOrderViolation)),
    }
}

/// The region after a request to initialize it as a mint, and the answer. A
/// fresh mint has issued nothing and keeps the flag of its region for good.
pub open spec fn mint_step(
    region: RegionModel,
    decimals: nat,
    mint_authority: Seq<u8>,
    freeze_authority: Seq<u8>,
) -> (RegionModel, Result<(), CredentialError>) {
    match region {
        RegionModel::Reserved { non_transferable } => (
            RegionModel::Initialized {
                registry: RegistryModel {
                    decimals,
                    mint_authority,
                    freeze_authority,
                    supply: 0,
                    non_transferable,
                },
            },
            Ok(()),
        ),
        RegionModel::Initialized { .. } => (region, Err(CredentialError::AlreadyInitialized)),
    }
}

/// A storage region on its way to being a mint.
#[derive(Clone, Copy, Debug)]
pub enum MintRegion {
    /// Allocated, not yet a mint; the flag may still be set.
    Reserved { non_transferable: bool },
    /// A mint.
    Initialized { registry: MintRegistry },
}

impl View for MintRegion {
    type V = RegionModel;

    open spec fn view(&self) -> RegionModel {
        match self {
            MintRegion::Reserved { non_transferable } => RegionModel::Reserved {
                non_transferable: *non_transferable,
            },
            MintRegion::Initialized { registry } => RegionModel::Initialized {
                registry: registry@,
            },
        }
    }
}

impl MintRegion {
    /// A freshly allocated region: not a mint, flag not set.
    pub fn reserve() -> (region: MintRegion)
        ensures
            region@ == (RegionModel::Reserved { non_transferable: false }),
    {
        MintRegion::Reserved { non_transferable: false }
    }

    /// Sets the non-transferability flag. Fails with
    /// `ExtensionOrderViolation`, changing nothing, exactly when the region is
    /// already a mint.
    pub fn set_non_transferable(&mut self) -> (result: Result<(), CredentialError>)
        ensures
            (final(self)@, result) == flag_step(old(self)@),
    {
        match self {
            MintRegion::Reserved { .. } => {
                *self = MintRegion::Reserved { non_transferable: true };
                Ok(())
            },
            MintRegion::Initialized { .. } => Err(CredentialError::ExtensionOrderViolation),
        }
    }

    /// Initializes the region as a mint with the given precision and
    /// authorities. Fails with `AlreadyInitialized`, changing nothing, exactly
    /// when the region is already a mint.
    pub fn initialize_mint(
        &mut self,
        decimals: u8,
        mint_authority: &Address,
        freeze_authority: &Address,
    ) -> (result: Result<(), CredentialError>)
        ensures
            (final(self)@, result) == mint_step(
                old(self)@,
                decimals as nat,
                mint_authority@,
                freeze_authority@,
            ),
    {
        match self {
            MintRegion::Reserved { non_transferable } => {
                let registry = MintRegistry {
                    decimals,
                    mint_authority: *mint_authority,
                    freeze_authority: *freeze_authority,
                    supply: 0,
                    non_transferable: *non_transferable,
                };
                *self = MintRegion::Initialized { registry };
                Ok(())
            },
            MintRegion::Initialized { .. } => Err(CredentialError::AlreadyInitialized),
        }
    }

    /// The registry, once the region is a mint.
    pub fn registry(&self) -> (registry: Option<MintRegistry>)
        ensures
            registry_view(registry) == match self@ {
                RegionModel::Reserved { .. } => None,
                RegionModel::Initialized { registry } => Some(registry),
            },
    {
        match self {
            MintRegion::Reserved { .. } => None,
            MintRegion::Initialized { registry } => Some(*registry),
        }
    }
}

} // verus!

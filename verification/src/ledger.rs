//! The ledger: the mint registry and the credential accounts, with the
//! primitive changes that the operations are made of.

use crate::address::{mint_address, spec_mint_address, Address};
use crate::instructions::{CREDENTIAL_DECIMALS, CREDENTIAL_UNIT};
use crate::model::{fresh_registry, AccountModel, LedgerModel};
use crate::registry::{registry_view, MintRegistry, RegistryModel};
use vstd::prelude::*;

verus! {

/// The record that binds one recipient to a balance of the credential.
#[derive(Clone, Copy, Debug)]
pub struct CredentialAccount {
    address: Address,
    owner: Address,
    mint: Address,
    balance: u64,
}

impl View for CredentialAccount {
    type V = AccountModel;

    closed spec fn view(&self) -> AccountModel {
        AccountModel { owner: self.owner@, mint: self.mint@, balance: self.balance as nat }
    }
}

impl CredentialAccount {
    /// Where the account is kept.
    pub closed spec fn spec_address(&self) -> Seq<u8> {
        self.address@
    }

    /// The account record with the given contents, as a host that keeps the
    /// records hands it over.
    pub fn new(address: Address, owner: Address, mint: Address, balance: u64) -> (account:
        CredentialAccount)
        ensures
            account.spec_address() == address@,
            account@ == (AccountModel { owner: owner@, mint: mint@, balance: balance as nat }),
    {
        CredentialAccount { address, owner, mint, balance }
    }

    /// Where the account is kept.
    pub fn address(&self) -> (address: Address)
        ensures
            address@ == self.spec_address(),
    {
        self.address
    }

    /// The recipient the account belongs to.
    pub fn owner(&self) -> (owner: Address)
        ensures
            owner@ == self@.owner,
    {
        self.owner
    }

    /// The mint whose units it holds.
    pub fn mint(&self) -> (mint: Address)
        ensures
            mint@ == self@.mint,
    {
        self.mint
    }

    /// Units held.
    pub fn balance(&self) -> (balance: u64)
        ensures
            balance == self@.balance,
    {
        self.balance
    }
}

/// The accounts of a list, by address.
pub open spec fn accounts_map(list: Seq<CredentialAccount>) -> Map<Seq<u8>, AccountModel>
    decreases list.len(),
{
    if list.len() == 0 {
        Map::empty()
    } else {
        accounts_map(list.drop_last()).insert(list.last().spec_address(), list.last()@)
    }
}

/// No two entries of the list share an address.
pub open spec fn distinct(list: Seq<CredentialAccount>) -> bool {
    forall|i: int, j: int|
        0 <= i < j < list.len() ==> list[i].spec_address() != list[j].spec_address()
}

/// Whether an account record can belong to the ledger of the mint at
/// `mint_address` with `supply` units issued: it is kept elsewhere than the
/// registry, holds units of that mint, and no more of them than were issued.
pub open spec fn account_fits(
    mint_address: Seq<u8>,
    supply: nat,
    account: CredentialAccount,
) -> bool {
    &&& account.spec_address() != mint_address
    &&& account@.mint == mint_address
    &&& account@.balance <= supply
}

/// Whether records handed over by a host make a ledger that the operations
/// could have reached: the registry, if any, is as initialization leaves it
/// but for its supply; without a registry there are no accounts; every
/// account fits; and no address is used twice.
pub open spec fn restorable(
    mint_address: Seq<u8>,
    registry: Option<RegistryModel>,
    list: Seq<CredentialAccount>,
) -> bool {
    &&& distinct(list)
    &&& match registry {
        None => list.len() == 0,
        Some(r) => {
            &&& r.decimals == CREDENTIAL_DECIMALS
            &&& r.non_transferable
            &&& r.mint_authority == mint_address
            &&& r.freeze_authority == mint_address
            &&& forall|i: int|
                0 <= i < list.len() ==> account_fits(mint_address, r.supply, #[trigger] list[i])
        },
    }
}

/// The addresses of the map are those of the list, and they are finitely
/// many.
proof fn lemma_map_domain(list: Seq<CredentialAccount>)
    ensures
        accounts_map(list).dom().finite(),
        forall|address: Seq<u8>|
            accounts_map(list).dom().contains(address) <==> exists|i: int|
                0 <= i < list.len() && #[trigger] list[i].address@ == address,
    decreases list.len(),
{
    if list.len() > 0 {
        let front = list.drop_last();
        lemma_map_domain(front);
        assert forall|address: Seq<u8>|
            accounts_map(list).dom().contains(address) <==> exists|i: int|
                0 <= i < list.len() && #[trigger] list[i].address@ == address by {
            if exists|i: int| 0 <= i < list.len() && #[trigger] list[i].address@ == address {
                let i = choose|i: int|
                    0 <= i < list.len() && #[trigger] list[i].address@ == address;
                if i < list.len() - 1 {
                    assert(front[i].address@ == address);
                }
            }
        }
    }
}

/// In a list without repeated addresses, the map holds each entry at its
/// address.
proof fn lemma_map_entry(list: Seq<CredentialAccount>, i: int)
    requires
        distinct(list),
        0 <= i < list.len(),
    ensures
        accounts_map(list).dom().contains(list[i].address@),
        accounts_map(list)[list[i].address@] == list[i]@,
    decreases list.len(),
{
    if i < list.len() - 1 {
        let front = list.drop_last();
        lemma_map_entry(front, i);
    }
}

/// Appending an entry inserts it into the map.
proof fn lemma_map_push(list: Seq<CredentialAccount>, entry: CredentialAccount)
    ensures
        accounts_map(list.push(entry)) == accounts_map(list).insert(entry.address@, entry@),
{
    assert(list.push(entry).drop_last() == list);
}

/// Replacing an entry by one at the same address replaces it in the map and
/// repeats no address.
proof fn lemma_map_update(list: Seq<CredentialAccount>, i: int, entry: CredentialAccount)
    requires
        distinct(list),
        0 <= i < list.len(),
        entry.address@ == list[i].address@,
    ensures
        distinct(list.update(i, entry)),
        accounts_map(list.update(i, entry)) == accounts_map(list).insert(entry.address@, entry@),
    decreases list.len(),
{
    let next = list.update(i, entry);
    let front = list.drop_last();
    if i == list.len() - 1 {
        assert(next.drop_last() == front);
    } else {
        lemma_map_update(front, i, entry);
        assert(next.drop_last() == front.update(i, entry));
    }
}

/// A list without repeated addresses has as many entries as its map.
proof fn lemma_map_len(list: Seq<CredentialAccount>)
    requires
        distinct(list),
    ensures
        accounts_map(list).dom().len() == list.len(),
    decreases list.len(),
{
    if list.len() > 0 {
        let front = list.drop_last();
        lemma_map_len(front);
        lemma_map_domain(front);
    }
}

/// The state that the operations work on: the registry of the one credential
/// type, once it exists, and the holding accounts made so far.
#[derive(Debug)]
pub struct Ledger {
    mint_address: Address,
    token_program: Address,
    associated_token_program: Address,
    storage_price: u64,
    registry: Option<MintRegistry>,
    accounts: Vec<CredentialAccount>,
}

impl View for Ledger {
    type V = LedgerModel;

    closed spec fn view(&self) -> LedgerModel {
        LedgerModel {
            mint_address: self.mint_address@,
            token_program: self.token_program@,
            associated_token_program: self.associated_token_program@,
            storage_price: self.storage_price as nat,
            registry: registry_view(self.registry),
            accounts: accounts_map(self.accounts@),
        }
    }
}

impl Ledger {
    /// The invariant of the representation: no address is used twice.
    pub closed spec fn representation_ok(&self) -> bool {
        distinct(self.accounts@)
    }

    /// What holds of every ledger between operations.
    pub open spec fn well_formed(&self) -> bool {
        self.representation_ok() && self@.valid()
    }

    /// A ledger on which nothing has happened yet: no registry, no accounts.
    /// `mint_address` is the canonical address of the registry,
    /// `storage_price` what the host asks per byte.
    pub fn new(
        mint_address: Address,
        token_program: Address,
        associated_token_program: Address,
        storage_price: u64,
    ) -> (ledger: Ledger)
        ensures
            ledger.well_formed(),
            ledger@ == LedgerModel::empty(
                mint_address@,
                token_program@,
                associated_token_program@,
                storage_price as nat,
            ),
    {
        Ledger {
            mint_address,
            token_program,
            associated_token_program,
            storage_price,
            registry: None,
            accounts: Vec::new(),
        }
    }

    /// The ledger of the deployment `program_id`, on which nothing has
    /// happened yet; its registry will stand at the address derived from the
    /// tag `mint` under the deployment. `None` where no address can be
    /// derived.
    pub fn for_program(
        program_id: &Address,
        token_program: Address,
        associated_token_program: Address,
        storage_price: u64,
    ) -> (ledger: Option<Ledger>)
        ensures
            ledger is Some <==> spec_mint_address(program_id@) is Some,
            ledger matches Some(l) ==> l.well_formed() && l@ == LedgerModel::empty(
                spec_mint_address(program_id@)->0,
                token_program@,
                associated_token_program@,
                storage_price as nat,
            ),
    {
        match mint_address(program_id) {
            Some(address) => Some(
                Ledger::new(address, token_program, associated_token_program, storage_price),
            ),
            None => None,
        }
    }

    /// The ledger that holds the given records, for a host that keeps them
    /// itself. `None` exactly when the records are not [`restorable`].
    pub fn restore(
        mint_address: Address,
        token_program: Address,
        associated_token_program: Address,
        storage_price: u64,
        registry: Option<MintRegistry>,
        accounts: Vec<CredentialAccount>,
    ) -> (ledger: Option<Ledger>)
        ensures
            ledger is Some <==> restorable(mint_address@, registry_view(registry), accounts@),
            ledger matches Some(l) ==> l.well_formed() && l@ == (LedgerModel {
                mint_address: mint_address@,
                token_program: token_program@,
                associated_token_program: associated_token_program@,
                storage_price: storage_price as nat,
                registry: registry_view(registry),
                accounts: accounts_map(accounts@),
            }),
    {
        match registry {
            None => {
                if accounts.len() != 0 {
                    return None;
                }
            },
            Some(r) => {
                if r.decimals() != CREDENTIAL_DECIMALS || !r.is_non_transferable()
                    || r.mint_authority() != mint_address || r.freeze_authority()
                    != mint_address {
                    return None;
                }
                let mut i: usize = 0;
                while i < accounts.len()
                    invariant
                        i <= accounts.len(),
                        registry == Some(r),
                        distinct(accounts@.subrange(0, i as int)),
                        forall|k: int|
                            0 <= k < i ==> account_fits(
                                mint_address@,
                                r@.supply,
                                #[trigger] accounts[k],
                            ),
                    decreases accounts.len() - i,
                {
                    let account = accounts[i];
                    if account.address == mint_address || account.mint != mint_address
                        || account.balance > r.supply() {
                        return None;
                    }
                    let mut j: usize = 0;
                    while j < i
                        invariant
                            j <= i < accounts.len(),
                            account == accounts[i as int],
                            forall|k: int|
                                0 <= k < j ==> accounts[k].spec_address()
                                    != account.spec_address(),
                        decreases i - j,
                    {
                        if accounts[j].address == account.address {
                            return None;
                        }
                        j += 1;
                    }
                    i += 1;
                }
                assert(accounts@.subrange(0, i as int) == accounts@);
            },
        }
        let ledger = Ledger {
            mint_address,
            token_program,
            associated_token_program,
            storage_price,
            registry,
            accounts,
        };
        proof {
            let list = ledger.accounts@;
            lemma_map_domain(list);
            assert forall|address: Seq<u8>| #[trigger]
                ledger@.accounts.dom().contains(address) implies ledger@.accounts[address].mint
                == ledger@.mint_address && ledger@.accounts[address].balance
                <= ledger@.supply() by {
                let i = choose|i: int|
                    0 <= i < list.len() && #[trigger] list[i].address@ == address;
                lemma_map_entry(list, i);
            }
        }
        Some(ledger)
    }

    /// The canonical address of the mint registry.
    pub fn mint_address(&self) -> (address: Address)
        ensures
            address@ == self@.mint_address,
    {
        self.mint_address
    }

    /// The token service that keeps the records.
    pub fn token_program(&self) -> (address: Address)
        ensures
            address@ == self@.token_program,
    {
        self.token_program
    }

    /// The service that derives and creates holding accounts.
    pub fn associated_token_program(&self) -> (address: Address)
        ensures
            address@ == self@.associated_token_program,
    {
        self.associated_token_program
    }

    /// What the host asks per byte of storage.
    pub fn storage_price(&self) -> (price: u64)
        ensures
            price == self@.storage_price,
    {
        self.storage_price
    }

    /// The mint registry, once it is initialized.
    pub fn registry(&self) -> (registry: Option<MintRegistry>)
        ensures
            registry_view(registry) == self@.registry,
    {
        self.registry
    }

    /// Whether a record exists at `address`: the registry or an account.
    pub fn is_occupied(&self, address: &Address) -> (occupied: bool)
        requires
            self.well_formed(),
        ensures
            occupied == self@.occupied(address@),
    {
        proof {
            lemma_map_domain(self.accounts@);
        }
        if self.registry.is_some() && self.mint_address == *address {
            true
        } else {
            self.find(address).is_some()
        }
    }

    /// The account at `address`, if there is one.
    pub fn account(&self, address: &Address) -> (account: Option<CredentialAccount>)
        requires
            self.well_formed(),
        ensures
            account is Some <==> self@.accounts.dom().contains(address@),
            account matches Some(a) ==> a@ == self@.accounts[address@] && a.spec_address()
                == address@,
    {
        proof {
            lemma_map_domain(self.accounts@);
        }
        match self.find(address) {
            Some(i) => {
                proof {
                    lemma_map_entry(self.accounts@, i as int);
                }
                Some(self.accounts[i])
            },
            None => None,
        }
    }

    /// The units held at `address`; none where there is no account.
    pub fn balance_of(&self, address: &Address) -> (balance: u64)
        requires
            self.well_formed(),
        ensures
            balance == self@.balance(address@),
    {
        match self.account(address) {
            Some(account) => account.balance,
            None => 0,
        }
    }

    /// The units issued so far; none before initialization.
    pub fn supply(&self) -> (supply: u64)
        ensures
            supply == self@.supply(),
    {
        match self.registry {
            Some(registry) => registry.supply(),
            None => 0,
        }
    }

    /// How many credential accounts exist.
    pub fn account_count(&self) -> (count: usize)
        requires
            self.well_formed(),
        ensures
            count == self@.accounts.dom().len(),
    {
        proof {
            lemma_map_len(self.accounts@);
        }
        self.accounts.len()
    }

    /// Whether the account at `address` may take one more unit under a cap
    /// on what one recipient may hold; without a cap it always may. The
    /// operations set no such cap themselves: a caller that wants one asks
    /// here before it issues.
    pub fn within_cap(&self, address: &Address, max_balance_per_recipient: Option<u64>) -> (allowed:
        bool)
        requires
            self.well_formed(),
        ensures
            allowed == match max_balance_per_recipient {
                Some(cap) => self@.balance(address@) < cap,
                None => true,
            },
    {
        match max_balance_per_recipient {
            Some(cap) => self.balance_of(address) < cap,
            None => true,
        }
    }

    /// The index of the account at `address`, if there is one.
    fn find(&self, address: &Address) -> (index: Option<usize>)
        ensures
            match index {
                Some(i) => i < self.accounts.len() && self.accounts[i as int].address@ == address@,
                None => forall|i: int|
                    0 <= i < self.accounts.len() ==> self.accounts[i].address@ != address@,
            },
    {
        let mut i: usize = 0;
        while i < self.accounts.len()
            invariant
                i <= self.accounts.len(),
                forall|k: int| 0 <= k < i ==> self.accounts[k].address@ != address@,
            decreases self.accounts.len() - i,
        {
            if self.accounts[i].address == *address {
                return Some(i);
            }
            i += 1;
        }
        None
    }

    /// Puts the freshly initialized registry in its place.
    pub(crate) fn install_registry(&mut self, registry: MintRegistry)
        requires
            old(self).well_formed(),
            old(self)@.registry is None,
            registry@ == fresh_registry(old(self)@.mint_address),
        ensures
            final(self).well_formed(),
            final(self)@ == (LedgerModel { registry: Some(registry@), ..old(self)@ }),
    {
        self.registry = Some(registry);
    }

    /// Makes an empty account for `owner` at the free place `address`.
    pub(crate) fn open_account(&mut self, address: &Address, owner: &Address)
        requires
            old(self).well_formed(),
            old(self)@.registry is Some,
            !old(self)@.occupied(address@),
        ensures
            final(self).well_formed(),
            final(self)@ == (LedgerModel {
                accounts: old(self)@.accounts.insert(
                    address@,
                    AccountModel { owner: owner@, mint: old(self)@.mint_address, balance: 0 },
                ),
                ..old(self)@
            }),
    {
        let entry = CredentialAccount {
            address: *address,
            owner: *owner,
            mint: self.mint_address,
            balance: 0,
        };
        proof {
            lemma_map_domain(self.accounts@);
            lemma_map_push(self.accounts@, entry);
        }
        self.accounts.push(entry);
    }

    /// Adds one credential to the account at `address` and to the supply.
    pub(crate) fn credit_account(&mut self, address: &Address)
        requires
            old(self).well_formed(),
            old(self)@.registry is Some,
            old(self)@.supply() < u64::MAX,
            old(self)@.accounts.dom().contains(address@),
        ensures
            final(self).well_formed(),
            final(self)@ == old(self)@.credited(address@, old(self)@.accounts[address@].owner),
    {
        proof {
            lemma_map_domain(self.accounts@);
        }
        let found = self.find(address);
        let i = found.unwrap();
        let before = self.accounts[i];
        proof {
            lemma_map_entry(self.accounts@, i as int);
        }
        let after = CredentialAccount { balance: before.balance + CREDENTIAL_UNIT, ..before };
        proof {
            lemma_map_update(self.accounts@, i as int, after);
        }
        self.accounts[i] = after;
        let registry = self.registry.unwrap();
        self.registry = Some(registry.with_unit_issued());
    }
}

} // verus!

//! Identities and the addresses derived from them.

use anchor_lang::prelude::Pubkey;
use vstd::prelude::*;
use vstd::std_specs::cmp::PartialEqSpecImpl;

verus! {

/// An identity on the ledger: a program, a signer, or the place of a record.
/// Its view is its 32 bytes.
#[derive(Clone, Copy, Debug)]
pub struct Address {
    bytes: [u8; 32],
}

impl View for Address {
    type V = Seq<u8>;

    closed spec fn view(&self) -> Seq<u8> {
        self.bytes@
    }
}

impl Address {
    /// The address with the given bytes.
    pub fn new(bytes: [u8; 32]) -> (address: Address)
        ensures
            address@ == bytes@,
    {
        Address { bytes }
    }

    /// The bytes of the address.
    pub fn to_bytes(&self) -> (bytes: [u8; 32])
        ensures
            bytes@ == self@,
    {
        self.bytes
    }

    /// The bytes of the address as a vector.
    pub fn to_vec(&self) -> (bytes: Vec<u8>)
        ensures
            bytes@ == self@,
    {
        let mut bytes: Vec<u8> = Vec::new();
        let mut i: usize = 0;
        while i < 32
            invariant
                i <= 32,
                bytes@ == self@.subrange(0, i as int),
            decreases 32 - i,
        {
            bytes.push(self.bytes[i]);
            i += 1;
        }
        bytes
    }
}

impl PartialEq for Address {
    fn eq(&self, other: &Address) -> (same: bool) {
        let mut i: usize = 0;
        while i < 32
            invariant
                i <= 32,
                self@.subrange(0, i as int) == other@.subrange(0, i as int),
            decreases 32 - i,
        {
            if self.bytes[i] != other.bytes[i] {
                return false;
            }
            i += 1;
        }
        assert(self@ == self@.subrange(0, 32));
        assert(other@ == other@.subrange(0, 32));
        true
    }
}

impl PartialEqSpecImpl for Address {
    open spec fn obeys_eq_spec() -> bool {
        true
    }

    open spec fn eq_spec(&self, other: &Address) -> bool {
        self@ == other@
    }
}

impl Eq for Address {

}

/// The program-derived address for `seeds` under `program_id`, with its bump
/// seed, or `None` where the search finds none. It stands for what
/// `Pubkey::try_find_program_address` computes: a hash of the seeds, the bump
/// and the program id, searched from the highest bump down for a value off the
/// curve. The same arguments always give the same result.
pub uninterp spec fn program_address(seeds: Seq<Seq<u8>>, program_id: Seq<u8>) -> Option<
    (Seq<u8>, u8),
>;

/// The plain form of what a search for a derived address returns.
pub open spec fn found_view(found: Option<(Address, u8)>) -> Option<(Seq<u8>, u8)> {
    match found {
        Some((address, bump)) => Some((address@, bump)),
        None => None,
    }
}

/// Calls `Pubkey::try_find_program_address` with the given seeds and program
/// id. Trusted: the result is the outside function's, named by
/// [`program_address`]; nothing more is claimed of it. The outside function
/// returns `None`, and does not panic, where a seed is too long, the seeds are
/// too many or no bump gives an address.
#[verifier::external_body]
fn find_program_address(seeds: &Vec<Vec<u8>>, program_id: &Address) -> (found: Option<
    (Address, u8),
>)
    ensures
        found_view(found) == program_address(seeds.deep_view(), program_id@),
{
    let slices: Vec<&[u8]> = seeds.iter().map(|seed| seed.as_slice()).collect();
    let program = Pubkey::new_from_array(program_id.bytes);
    match Pubkey::try_find_program_address(&slices, &program) {
        Some((address, bump)) => Some((Address { bytes: address.to_bytes() }, bump)),
        None => None,
    }
}

/// The tag of the canonical mint: the ASCII bytes of `mint`.
pub const MINT_TAG: [u8; 4] = [109, 105, 110, 116];

/// The seeds of the canonical mint: the tag alone.
pub open spec fn mint_seeds() -> Seq<Seq<u8>> {
    seq![MINT_TAG@]
}

/// The address of the canonical mint of the deployment `program_id`, where
/// one can be derived.
pub open spec fn spec_mint_address(program_id: Seq<u8>) -> Option<Seq<u8>> {
    match program_address(mint_seeds(), program_id) {
        Some((address, _)) => Some(address),
        None => None,
    }
}

/// The seeds of a holding account: its owner, the token service and the mint.
pub open spec fn holding_seeds(owner: Seq<u8>, token_program: Seq<u8>, mint: Seq<u8>) -> Seq<
    Seq<u8>,
> {
    seq![owner, token_program, mint]
}

/// The address of the holding account that binds `owner` to `mint`, where one
/// can be derived: the address for the seeds `owner`, `token_program`, `mint`
/// under the associated-storage service.
pub open spec fn spec_credential_account_address(
    owner: Seq<u8>,
    mint: Seq<u8>,
    token_program: Seq<u8>,
    associated_token_program: Seq<u8>,
) -> Option<Seq<u8>> {
    match program_address(holding_seeds(owner, token_program, mint), associated_token_program) {
        Some((address, _)) => Some(address),
        None => None,
    }
}

/// The plain form of an address that may be missing.
pub open spec fn address_view(address: Option<Address>) -> Option<Seq<u8>> {
    match address {
        Some(a) => Some(a@),
        None => None,
    }
}

/// Derives the address of the canonical mint of the deployment `program_id`.
/// There is one such address per deployment, so no second registry can be
/// made under it.
pub fn mint_address(program_id: &Address) -> (address: Option<Address>)
    ensures
        address_view(address) == spec_mint_address(program_id@),
{
    let mut tag: Vec<u8> = Vec::new();
    let mut i: usize = 0;
    while i < 4
        invariant
            i <= 4,
            tag@ == MINT_TAG@.subrange(0, i as int),
        decreases 4 - i,
    {
        tag.push(MINT_TAG[i]);
        i += 1;
    }
    let mut seeds: Vec<Vec<u8>> = Vec::new();
    seeds.push(tag);
    assert(seeds.deep_view() =~~= mint_seeds());
    match find_program_address(&seeds, program_id) {
        Some((address, _)) => Some(address),
        None => None,
    }
}

/// Derives the address of the holding account that binds `owner` to `mint`.
/// The same owner and mint always give the same address.
pub fn credential_account_address(
    owner: &Address,
    mint: &Address,
    token_program: &Address,
    associated_token_program: &Address,
) -> (address: Option<Address>)
    ensures
        address_view(address) == spec_credential_account_address(
            owner@,
            mint@,
            token_program@,
            associated_token_program@,
        ),
{
    let mut seeds: Vec<Vec<u8>> = Vec::new();
    seeds.push(owner.to_vec());
    seeds.push(token_program.to_vec());
    seeds.push(mint.to_vec());
    assert(seeds.deep_view() =~~= holding_seeds(owner@, token_program@, mint@));
    match find_program_address(&seeds, associated_token_program) {
        Some((address, _)) => Some(address),
        None => None,
    }
}

} // verus!

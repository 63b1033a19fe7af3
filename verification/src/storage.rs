//! How much storage a record takes and what it costs.
//!
//! A record is a fixed header, then the fields that the token service defines
//! for a mint or for a holding account, then the space reserved for the
//! non-transferability extension. The host sizes a record by which parts are
//! present, not by what they hold, so the reserve is counted although nothing
//! is read back from it.

use vstd::prelude::*;

verus! {

/// Bytes of the header of every record.
pub const RECORD_HEADER: u64 = 8;

/// Bytes of the fields of a mint.
pub const MINT_FIELDS: u64 = 82;

/// Bytes of the fields of a holding account.
pub const ACCOUNT_FIELDS: u64 = 165;

/// Bytes reserved for the non-transferability extension.
pub const EXTENSION_RESERVE: u64 = 8;

/// Bytes of the mint registry's record.
pub const MINT_SPACE: u64 = RECORD_HEADER + MINT_FIELDS + EXTENSION_RESERVE;

/// Bytes of a credential account's record.
pub const ACCOUNT_SPACE: u64 = RECORD_HEADER + ACCOUNT_FIELDS + EXTENSION_RESERVE;

/// The size of a record with `fields` bytes of fields, with or without the
/// reserve for the extension.
pub open spec fn spec_record_space(fields: nat, extended: bool) -> nat {
    if extended {
        RECORD_HEADER as nat + fields + EXTENSION_RESERVE as nat
    } else {
        RECORD_HEADER as nat + fields
    }
}

/// The size of a record, or `None` where it does not fit in 64 bits.
pub fn record_space(fields: u64, extended: bool) -> (space: Option<u64>)
    ensures
        match space {
            Some(bytes) => bytes == spec_record_space(fields as nat, extended),
            None => spec_record_space(fields as nat, extended) > u64::MAX,
        },
{
    let reserve: u64 = if extended {
        EXTENSION_RESERVE
    } else {
        0
    };
    match fields.checked_add(RECORD_HEADER) {
        Some(plain) => plain.checked_add(reserve),
        None => None,
    }
}

/// What the host asks for `space` bytes at `price` per byte.
pub open spec fn storage_cost(price: nat, space: nat) -> nat {
    price * space
}

/// What the host asks for a record with `fields` bytes of fields that
/// carries the extension.
pub open spec fn record_cost(price: nat, fields: nat) -> nat {
    storage_cost(price, spec_record_space(fields, true))
}

/// Whether `funds` cover a record with `fields` bytes of fields that carries
/// the extension, at `price` per byte.
pub fn covers_record(funds: u64, price: u64, fields: u64) -> (enough: bool)
    ensures
        enough == (funds >= record_cost(price as nat, fields as nat)),
{
    match record_space(fields, true) {
        Some(space) => covers(funds, price, space),
        None => {
            assert(price == 0 || record_cost(price as nat, fields as nat) > u64::MAX)
                by (nonlinear_arith)
                requires
                    record_cost(price as nat, fields as nat) == price * spec_record_space(
                        fields as nat,
                        true,
                    ),
                    spec_record_space(fields as nat, true) > u64::MAX,
                    0 <= price,
            ;
            price == 0
        },
    }
}

/// Whether `funds` cover `space` bytes at `price` per byte.
pub fn covers(funds: u64, price: u64, space: u64) -> (enough: bool)
    ensures
        enough == (funds >= storage_cost(price as nat, space as nat)),
{
    assert(price * space <= u64::MAX * u64::MAX) by (nonlinear_arith)
        requires
            0 <= price <= u64::MAX,
            0 <= space <= u64::MAX,
    ;
    let cost: u128 = (price as u128) * (space as u128);
    (funds as u128) >= cost
}

} // verus!

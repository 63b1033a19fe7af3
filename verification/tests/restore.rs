use anchor_lang::prelude::Pubkey;
use credi::{
    initialize_credential_mint, issue_credential_at, Address, CredentialAccount, CredentialError,
    InitializeCredentialMint, IssueCredential, Ledger, MintRegistry, Signer,
};

fn mint() -> Address {
    Address::new([1u8; 32])
}

fn token() -> Address {
    Address::new([2u8; 32])
}

fn service() -> Address {
    Address::new([3u8; 32])
}

fn registry(supply: u64) -> MintRegistry {
    MintRegistry::new(0, mint(), mint(), supply, true)
}

fn account(n: u8, balance: u64) -> CredentialAccount {
    CredentialAccount::new(
        Address::new([200 + n; 32]),
        Address::new([100 + n; 32]),
        mint(),
        balance,
    )
}

fn restore(registry: Option<MintRegistry>, accounts: Vec<CredentialAccount>) -> Option<Ledger> {
    Ledger::restore(mint(), token(), service(), 10, registry, accounts)
}

#[test]
fn records_keep_what_they_were_given() {
    let r = MintRegistry::new(3, Address::new([8u8; 32]), Address::new([9u8; 32]), 77, false);
    assert_eq!(r.decimals(), 3);
    assert_eq!(r.mint_authority(), Address::new([8u8; 32]));
    assert_eq!(r.freeze_authority(), Address::new([9u8; 32]));
    assert_eq!(r.supply(), 77);
    assert!(!r.is_non_transferable());
    let a = account(1, 5);
    assert_eq!(a.address(), Address::new([201u8; 32]));
    assert_eq!(a.owner(), Address::new([101u8; 32]));
    assert_eq!(a.mint(), mint());
    assert_eq!(a.balance(), 5);
}

#[test]
fn restore_takes_a_reachable_ledger() {
    let ledger =
        restore(Some(registry(5)), vec![account(1, 2), account(2, 3), account(3, 0)]).unwrap();
    assert_eq!(ledger.supply(), 5);
    assert_eq!(ledger.account_count(), 3);
    assert_eq!(ledger.balance_of(&Address::new([201u8; 32])), 2);
    assert_eq!(ledger.balance_of(&Address::new([202u8; 32])), 3);
    assert_eq!(ledger.balance_of(&Address::new([203u8; 32])), 0);
    assert_eq!(ledger.balance_of(&Address::new([204u8; 32])), 0);
    assert!(ledger.account(&Address::new([203u8; 32])).is_some());
    assert!(ledger.account(&Address::new([204u8; 32])).is_none());
    assert_eq!(ledger.mint_address(), mint());
    assert_eq!(ledger.token_program(), token());
    assert_eq!(ledger.associated_token_program(), service());
    assert_eq!(ledger.storage_price(), 10);
    let r = ledger.registry().unwrap();
    assert_eq!(r.supply(), 5);
    assert_eq!(r.decimals(), 0);
}

#[test]
fn restore_takes_the_empty_ledger() {
    let ledger = restore(None, Vec::new()).unwrap();
    assert!(ledger.registry().is_none());
    assert_eq!(ledger.account_count(), 0);
    let ledger = restore(Some(registry(0)), Vec::new()).unwrap();
    assert_eq!(ledger.supply(), 0);
    assert!(ledger.registry().is_some());
}

#[test]
fn restore_refuses_accounts_without_a_registry() {
    assert!(restore(None, vec![account(1, 0)]).is_none());
}

#[test]
fn restore_refuses_a_registry_that_initialization_cannot_leave() {
    let decimals = MintRegistry::new(2, mint(), mint(), 0, true);
    let transferable = MintRegistry::new(0, mint(), mint(), 0, false);
    let foreign_minter = MintRegistry::new(0, Address::new([8u8; 32]), mint(), 0, true);
    let foreign_freezer = MintRegistry::new(0, mint(), Address::new([8u8; 32]), 0, true);
    assert!(restore(Some(decimals), Vec::new()).is_none());
    assert!(restore(Some(transferable), Vec::new()).is_none());
    assert!(restore(Some(foreign_minter), Vec::new()).is_none());
    assert!(restore(Some(foreign_freezer), Vec::new()).is_none());
}

#[test]
fn restore_refuses_accounts_that_do_not_fit() {
    let at_the_mint = CredentialAccount::new(mint(), Address::new([101u8; 32]), mint(), 0);
    let of_another_mint = CredentialAccount::new(
        Address::new([201u8; 32]),
        Address::new([101u8; 32]),
        Address::new([9u8; 32]),
        0,
    );
    assert!(restore(Some(registry(5)), vec![at_the_mint]).is_none());
    assert!(restore(Some(registry(5)), vec![of_another_mint]).is_none());
    assert!(restore(Some(registry(5)), vec![account(1, 6)]).is_none());
    assert!(restore(Some(registry(5)), vec![account(1, 5)]).is_some());
    assert!(restore(Some(registry(5)), vec![account(1, 1), account(2, 6)]).is_none());
}

#[test]
fn restore_refuses_an_address_used_twice() {
    assert!(restore(Some(registry(5)), vec![account(1, 1), account(1, 1)]).is_none());
    assert!(restore(Some(registry(5)), vec![account(1, 1), account(2, 1), account(1, 2)])
        .is_none());
    let twice_at_the_end = vec![account(2, 1), account(1, 1), account(3, 2), account(3, 2)];
    assert!(restore(Some(registry(5)), twice_at_the_end).is_none());
    assert!(restore(Some(registry(5)), vec![account(1, 1), account(2, 1), account(3, 2)])
        .is_some());
}

#[test]
fn a_restored_ledger_goes_on_where_the_records_stand() {
    let mut ledger = restore(Some(registry(7)), vec![account(1, 4)]).unwrap();
    let ctx = IssueCredential {
        mint: mint(),
        authority: Signer { key: mint(), funds: 0 },
        recipient_ata: Address::new([201u8; 32]),
        recipient: Signer { key: Address::new([101u8; 32]), funds: 0 },
    };
    let held = Address::new([201u8; 32]);
    assert_eq!(issue_credential_at(&mut ledger, &ctx, Some(held)), Ok(()));
    assert_eq!(ledger.balance_of(&Address::new([201u8; 32])), 5);
    assert_eq!(ledger.supply(), 8);
    assert_eq!(ledger.account_count(), 1);
    let init = InitializeCredentialMint { mint: mint(), payer: Signer { key: token(), funds: 980 } };
    assert_eq!(
        initialize_credential_mint(&mut ledger, &init),
        Err(CredentialError::AlreadyInitialized)
    );
}

#[test]
fn for_program_puts_the_registry_at_the_derived_address() {
    let program = Pubkey::new_from_array([33u8; 32]);
    let (expected, _) = Pubkey::find_program_address(&[b"mint"], &program);
    let mut ledger =
        Ledger::for_program(&Address::new(program.to_bytes()), token(), service(), 10).unwrap();
    assert_eq!(ledger.mint_address().to_bytes(), expected.to_bytes());
    assert!(ledger.registry().is_none());
    assert_eq!(ledger.account_count(), 0);
    assert_eq!(ledger.token_program(), token());
    assert_eq!(ledger.associated_token_program(), service());
    assert_eq!(ledger.storage_price(), 10);
    let elsewhere = InitializeCredentialMint {
        mint: Address::new(program.to_bytes()),
        payer: Signer { key: token(), funds: 980 },
    };
    assert_eq!(
        initialize_credential_mint(&mut ledger, &elsewhere),
        Err(CredentialError::AllocationFailed)
    );
    let here = InitializeCredentialMint {
        mint: Address::new(expected.to_bytes()),
        payer: Signer { key: token(), funds: 980 },
    };
    assert_eq!(initialize_credential_mint(&mut ledger, &here), Ok(()));
    assert_eq!(ledger.registry().unwrap().mint_authority().to_bytes(), expected.to_bytes());
}

#[test]
fn a_cap_is_the_callers_to_ask_for() {
    let ledger = restore(Some(registry(5)), vec![account(1, 2)]).unwrap();
    let held = Address::new([201u8; 32]);
    let absent = Address::new([202u8; 32]);
    assert!(ledger.within_cap(&held, None));
    assert!(ledger.within_cap(&held, Some(3)));
    assert!(!ledger.within_cap(&held, Some(2)));
    assert!(!ledger.within_cap(&held, Some(1)));
    assert!(!ledger.within_cap(&held, Some(0)));
    assert!(ledger.within_cap(&absent, Some(1)));
    assert!(!ledger.within_cap(&absent, Some(0)));
    assert!(ledger.within_cap(&absent, None));
}

#[test]
fn issuance_itself_sets_no_cap() {
    let mut ledger = restore(Some(registry(1)), vec![account(1, 1)]).unwrap();
    let held = Address::new([201u8; 32]);
    let ctx = IssueCredential {
        mint: mint(),
        authority: Signer { key: mint(), funds: 0 },
        recipient_ata: held,
        recipient: Signer { key: Address::new([101u8; 32]), funds: 0 },
    };
    assert!(!ledger.within_cap(&held, Some(1)));
    assert_eq!(issue_credential_at(&mut ledger, &ctx, Some(held)), Ok(()));
    assert_eq!(ledger.balance_of(&held), 2);
}

use anchor_lang::prelude::Pubkey;
use credi::address::{credential_account_address, mint_address, MINT_TAG};
use credi::Address;
use std::str::FromStr;

fn program_id() -> Pubkey {
    Pubkey::from_str("84DES1yt9xCXdQf5j9iRphCT1cGYm6Y9vdFsZYkqmfSi").unwrap()
}

fn address_of(key: &Pubkey) -> Address {
    Address::new(key.to_bytes())
}

#[test]
fn address_keeps_its_bytes() {
    let mut bytes = [0u8; 32];
    for (i, b) in bytes.iter_mut().enumerate() {
        *b = (i * 7 + 1) as u8;
    }
    let address = Address::new(bytes);
    assert_eq!(address.to_bytes(), bytes);
    assert_eq!(address.to_vec(), bytes.to_vec());
}

#[test]
fn addresses_compare_by_bytes() {
    let a = Address::new([1u8; 32]);
    let b = Address::new([1u8; 32]);
    let mut other = [1u8; 32];
    other[31] = 2;
    let c = Address::new(other);
    let mut first = [1u8; 32];
    first[0] = 0;
    let d = Address::new(first);
    assert!(a == b);
    assert!(a != c);
    assert!(a != d);
    assert_eq!(a, b);
    assert_ne!(c, d);
}

#[test]
fn mint_address_is_the_program_address_of_the_mint_tag() {
    let program = program_id();
    let (expected, _) = Pubkey::find_program_address(&[b"mint"], &program);
    let derived = mint_address(&address_of(&program)).expect("an address is found");
    assert_eq!(derived, address_of(&expected));
    assert_ne!(derived, address_of(&program));
}

#[test]
fn mint_address_is_the_same_on_every_call() {
    let program = address_of(&program_id());
    assert_eq!(mint_address(&program), mint_address(&program));
}

#[test]
fn mint_address_depends_on_the_deployment() {
    let one = mint_address(&Address::new([3u8; 32])).unwrap();
    let other = mint_address(&Address::new([4u8; 32])).unwrap();
    assert_ne!(one, other);
    let (expected, _) =
        Pubkey::find_program_address(&[b"mint"], &Pubkey::new_from_array([3u8; 32]));
    assert_eq!(one.to_bytes(), expected.to_bytes());
}

#[test]
fn credential_account_address_is_the_associated_token_address() {
    let mint = Pubkey::find_program_address(&[b"mint"], &program_id()).0;
    let recipient = Pubkey::new_from_array([9u8; 32]);
    let token_program = anchor_spl::token_2022::ID;
    let expected = anchor_spl::associated_token::get_associated_token_address_with_program_id(
        &recipient,
        &mint,
        &token_program,
    );
    let derived = credential_account_address(
        &address_of(&recipient),
        &address_of(&mint),
        &address_of(&token_program),
        &address_of(&anchor_spl::associated_token::ID),
    )
    .expect("an address is found");
    assert_eq!(derived, address_of(&expected));
}

#[test]
fn credential_account_address_tells_recipients_and_mints_apart() {
    let token_program = address_of(&anchor_spl::token_2022::ID);
    let service = address_of(&anchor_spl::associated_token::ID);
    let mint = Address::new([5u8; 32]);
    let other_mint = Address::new([6u8; 32]);
    let r1 = Address::new([7u8; 32]);
    let r2 = Address::new([8u8; 32]);
    let a = credential_account_address(&r1, &mint, &token_program, &service).unwrap();
    let b = credential_account_address(&r2, &mint, &token_program, &service).unwrap();
    let c = credential_account_address(&r1, &other_mint, &token_program, &service).unwrap();
    let again = credential_account_address(&r1, &mint, &token_program, &service).unwrap();
    assert_eq!(a, again);
    assert_ne!(a, b);
    assert_ne!(a, c);
    assert_ne!(a, r1);
    assert_ne!(a, mint);
}

#[test]
fn credential_account_address_orders_its_seeds_owner_service_mint() {
    let token_program = Pubkey::new_from_array([11u8; 32]);
    let service = Pubkey::new_from_array([12u8; 32]);
    let mint = Pubkey::new_from_array([13u8; 32]);
    let owner = Pubkey::new_from_array([14u8; 32]);
    let (expected, _) = Pubkey::find_program_address(
        &[&owner.to_bytes(), &token_program.to_bytes(), &mint.to_bytes()],
        &service,
    );
    let derived = credential_account_address(
        &address_of(&owner),
        &address_of(&mint),
        &address_of(&token_program),
        &address_of(&service),
    )
    .unwrap();
    assert_eq!(derived.to_bytes(), expected.to_bytes());
}

#[test]
fn mint_address_of_the_deployment_is_known() {
    let derived = mint_address(&address_of(&program_id())).unwrap();
    let expected = Pubkey::from_str("3QzbSmpWwt98FahWgQM75Xbthi8Ja8ZQyxFYCkt6vgav").unwrap();
    assert_eq!(derived.to_bytes(), expected.to_bytes());
    assert_eq!(derived.to_bytes()[0], 35);
    assert_eq!(derived.to_bytes()[31], 227);
}

#[test]
fn credential_account_address_of_a_recipient_is_known() {
    let mint = Pubkey::from_str("3QzbSmpWwt98FahWgQM75Xbthi8Ja8ZQyxFYCkt6vgav").unwrap();
    let derived = credential_account_address(
        &Address::new([9u8; 32]),
        &address_of(&mint),
        &address_of(&anchor_spl::token_2022::ID),
        &address_of(&anchor_spl::associated_token::ID),
    )
    .unwrap();
    let expected = Pubkey::from_str("CjQvMyCGB9cbAYSDLf6gm5zHRBuPrdzXDpcpCfmiArNc").unwrap();
    assert_eq!(derived.to_bytes(), expected.to_bytes());
}

#[test]
fn mint_tag_spells_mint() {
    assert_eq!(&MINT_TAG, b"mint");
    assert_eq!(MINT_TAG.len(), 4);
}

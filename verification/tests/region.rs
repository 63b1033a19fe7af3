use credi::{Address, CredentialError, MintRegion};

#[test]
fn flag_then_mint_gives_a_non_transferable_registry() {
    let own = Address::new([21u8; 32]);
    let mut region = MintRegion::reserve();
    assert!(region.registry().is_none());
    assert_eq!(region.set_non_transferable(), Ok(()));
    assert!(region.registry().is_none());
    assert_eq!(region.initialize_mint(0, &own, &own), Ok(()));
    let registry = region.registry().expect("the region is a mint");
    assert_eq!(registry.decimals(), 0);
    assert_eq!(registry.supply(), 0);
    assert!(registry.is_non_transferable());
    assert_eq!(registry.mint_authority(), own);
    assert_eq!(registry.freeze_authority(), own);
}

#[test]
fn flag_after_mint_is_an_extension_order_violation() {
    let own = Address::new([22u8; 32]);
    let mut region = MintRegion::reserve();
    assert_eq!(region.initialize_mint(0, &own, &own), Ok(()));
    assert_eq!(
        region.set_non_transferable(),
        Err(CredentialError::ExtensionOrderViolation)
    );
    let registry = region.registry().expect("the region is still a mint");
    assert!(!registry.is_non_transferable());
    assert_eq!(registry.decimals(), 0);
}

#[test]
fn setting_the_flag_twice_before_the_mint_is_accepted() {
    let own = Address::new([23u8; 32]);
    let mut region = MintRegion::reserve();
    assert_eq!(region.set_non_transferable(), Ok(()));
    assert_eq!(region.set_non_transferable(), Ok(()));
    assert_eq!(region.initialize_mint(0, &own, &own), Ok(()));
    assert!(region.registry().unwrap().is_non_transferable());
}

#[test]
fn a_region_becomes_a_mint_only_once() {
    let first = Address::new([24u8; 32]);
    let second = Address::new([25u8; 32]);
    let mut region = MintRegion::reserve();
    assert_eq!(region.set_non_transferable(), Ok(()));
    assert_eq!(region.initialize_mint(0, &first, &first), Ok(()));
    assert_eq!(
        region.initialize_mint(6, &second, &second),
        Err(CredentialError::AlreadyInitialized)
    );
    let registry = region.registry().unwrap();
    assert_eq!(registry.decimals(), 0);
    assert_eq!(registry.mint_authority(), first);
    assert_eq!(registry.freeze_authority(), first);
    assert!(registry.is_non_transferable());
}

#[test]
fn a_mint_keeps_the_precision_and_authorities_it_was_given() {
    let minter = Address::new([26u8; 32]);
    let freezer = Address::new([27u8; 32]);
    let mut region = MintRegion::reserve();
    assert_eq!(region.initialize_mint(9, &minter, &freezer), Ok(()));
    let registry = region.registry().unwrap();
    assert_eq!(registry.decimals(), 9);
    assert_eq!(registry.mint_authority(), minter);
    assert_eq!(registry.freeze_authority(), freezer);
    assert_eq!(registry.supply(), 0);
}

#[test]
fn every_error_has_its_own_message() {
    let all = [
        CredentialError::AlreadyInitialized,
        CredentialError::MintNotInitialized,
        CredentialError::Unauthorized,
        CredentialError::AllocationFailed,
        CredentialError::RecipientAccountCreationFailed,
        CredentialError::ExtensionOrderViolation,
    ];
    for (i, a) in all.iter().enumerate() {
        assert!(!a.message().is_empty());
        for (j, b) in all.iter().enumerate() {
            assert_eq!(a.message() == b.message(), i == j);
        }
    }
    assert_eq!(
        CredentialError::Unauthorized.message(),
        "the caller is not the mint authority"
    );
}

use access_registry::error::AccessRegistryError;
use access_registry::{
    accept_ownership, is_approved, set_blacklisted, transfer_ownership, AccessRegistry, Address,
    BlacklistStore,
};

fn id(n: u8) -> Address {
    Address::new([n; 32])
}

fn stable_registry() -> AccessRegistry {
    AccessRegistry {
        owner: id(1),
        pending_owner: Address::null(),
        chainalysis_oracle: id(9),
        pool_factory_owner: id(2),
        blacklist_count: 4,
    }
}

#[test]
fn ownership_moves_in_two_steps() {
    let a = id(1);
    let b = id(11);
    let c = id(12);
    let mut registry = stable_registry();
    assert_eq!(transfer_ownership(&mut registry, &a, b), Ok(()));
    assert_eq!(registry.pending_owner, b);
    assert_eq!(registry.owner, a);
    assert!(registry.has_pending_owner());
    let nominated = registry;
    assert_eq!(accept_ownership(&mut registry, &c), Err(AccessRegistryError::NotPendingOwner));
    assert_eq!(registry, nominated);
    assert_eq!(accept_ownership(&mut registry, &a), Err(AccessRegistryError::NotPendingOwner));
    assert_eq!(registry, nominated);
    assert_eq!(accept_ownership(&mut registry, &b), Ok(()));
    assert_eq!(registry.owner, b);
    assert_eq!(registry.pending_owner, Address::null());
    assert!(!registry.has_pending_owner());
    let mut expected = stable_registry();
    expected.owner = b;
    assert_eq!(registry, expected);
    for anyone in [a, b, c, Address::null()] {
        assert_eq!(accept_ownership(&mut registry, &anyone), Err(AccessRegistryError::NoPendingTransfer));
        assert_eq!(registry, expected);
    }
}

#[test]
fn only_the_owner_nominates() {
    let mut registry = stable_registry();
    for caller in [id(2), id(11), Address::null()] {
        assert_eq!(transfer_ownership(&mut registry, &caller, id(11)), Err(AccessRegistryError::Unauthorized));
    }
    assert_eq!(transfer_ownership(&mut registry, &id(11), Address::null()), Err(AccessRegistryError::Unauthorized));
    assert_eq!(registry, stable_registry());
}

#[test]
fn nominee_must_be_a_plain_address() {
    let mut registry = stable_registry();
    for nominee in [Address::null(), id(1), id(2)] {
        assert_eq!(
            transfer_ownership(&mut registry, &id(1), nominee),
            Err(AccessRegistryError::InvalidPendingOwner)
        );
        assert_eq!(registry, stable_registry());
    }
}

#[test]
fn a_new_nomination_replaces_the_old_one() {
    let mut registry = stable_registry();
    assert_eq!(transfer_ownership(&mut registry, &id(1), id(11)), Ok(()));
    assert_eq!(transfer_ownership(&mut registry, &id(1), id(12)), Ok(()));
    assert_eq!(registry.pending_owner, id(12));
    assert_eq!(accept_ownership(&mut registry, &id(11)), Err(AccessRegistryError::NotPendingOwner));
    assert_eq!(accept_ownership(&mut registry, &id(12)), Ok(()));
    assert_eq!(registry.owner, id(12));
}

#[test]
fn a_failed_nomination_keeps_the_one_in_flight() {
    let mut registry = stable_registry();
    assert_eq!(transfer_ownership(&mut registry, &id(1), id(11)), Ok(()));
    assert_eq!(transfer_ownership(&mut registry, &id(1), id(2)), Err(AccessRegistryError::InvalidPendingOwner));
    assert_eq!(registry.pending_owner, id(11));
}

#[test]
fn nobody_accepts_while_nothing_is_in_flight() {
    let mut registry = stable_registry();
    for caller in [id(1), id(2), id(11), Address::null()] {
        assert_eq!(accept_ownership(&mut registry, &caller), Err(AccessRegistryError::NoPendingTransfer));
    }
    assert_eq!(registry, stable_registry());
}

#[test]
fn the_old_owner_loses_authority() {
    let mut registry = stable_registry();
    let mut store = BlacklistStore::new();
    assert_eq!(transfer_ownership(&mut registry, &id(1), id(11)), Ok(()));
    assert_eq!(set_blacklisted(&mut registry, &mut store, &id(11), id(5), true, 1), Err(AccessRegistryError::Unauthorized));
    assert_eq!(accept_ownership(&mut registry, &id(11)), Ok(()));
    assert_eq!(set_blacklisted(&mut registry, &mut store, &id(1), id(5), true, 1), Err(AccessRegistryError::Unauthorized));
    assert_eq!(transfer_ownership(&mut registry, &id(1), id(12)), Err(AccessRegistryError::Unauthorized));
    assert_eq!(set_blacklisted(&mut registry, &mut store, &id(11), id(1), true, 1), Ok(()));
    assert!(store.is_blacklisted(&id(1)));
    assert_eq!(set_blacklisted(&mut registry, &mut store, &id(11), id(11), true, 1), Err(AccessRegistryError::CannotBlacklistSpecialAddress));
}

#[test]
fn a_blacklisted_nominee_is_approved_once_owner() {
    let mut registry = stable_registry();
    registry.blacklist_count = 0;
    let mut store = BlacklistStore::new();
    assert_eq!(set_blacklisted(&mut registry, &mut store, &id(1), id(11), true, 1), Ok(()));
    assert!(!is_approved(&registry, &store, id(11), &Ok(false)));
    assert_eq!(transfer_ownership(&mut registry, &id(1), id(11)), Ok(()));
    assert_eq!(accept_ownership(&mut registry, &id(11)), Ok(()));
    assert!(store.is_blacklisted(&id(11)));
    assert!(is_approved(&registry, &store, id(11), &Ok(true)));
}

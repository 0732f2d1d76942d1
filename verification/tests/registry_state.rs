use access_registry::address::Address;
use access_registry::error::AccessRegistryError;
use access_registry::state::{valid_batch_len, AccessRegistry, BlacklistEntry, MAX_BATCH_SIZE};
use access_registry::store::BlacklistStore;

fn key(n: u8) -> Address {
    Address::new([n; 32])
}

fn sample_registry() -> AccessRegistry {
    AccessRegistry {
        owner: key(1),
        pending_owner: Address::null(),
        chainalysis_oracle: Address::null(),
        pool_factory_owner: key(2),
        blacklist_count: 0,
    }
}

#[test]
fn null_address_is_all_zero() {
    assert_eq!(Address::null().to_bytes(), [0u8; 32]);
    assert!(Address::null().is_null());
    assert!(Address::new([0u8; 32]).is_null());
}

#[test]
fn address_with_one_set_byte_is_not_null() {
    let mut bytes = [0u8; 32];
    bytes[31] = 1;
    assert!(!Address::new(bytes).is_null());
    let mut first = [0u8; 32];
    first[0] = 1;
    assert!(!Address::new(first).is_null());
}

#[test]
fn addresses_compare_byte_for_byte() {
    let mut a = [7u8; 32];
    let b = [7u8; 32];
    assert!(Address::new(a) == Address::new(b));
    a[31] = 8;
    assert!(Address::new(a) != Address::new(b));
    a[31] = 7;
    a[0] = 6;
    assert!(Address::new(a) != Address::new(b));
}

#[test]
fn address_keeps_its_bytes() {
    let mut bytes = [0u8; 32];
    for i in 0..32 {
        bytes[i] = i as u8;
    }
    assert_eq!(Address::new(bytes).to_bytes(), bytes);
}

#[test]
fn owner_and_pool_factory_owner_are_special() {
    let registry = sample_registry();
    assert!(registry.is_registry_owner(&key(1)));
    assert!(!registry.is_registry_owner(&key(2)));
    assert!(registry.is_pool_factory_owner(&key(2)));
    assert!(!registry.is_pool_factory_owner(&key(1)));
    assert!(registry.is_special_address(&key(1)));
    assert!(registry.is_special_address(&key(2)));
    assert!(!registry.is_special_address(&key(3)));
    assert!(!registry.is_special_address(&Address::null()));
}

#[test]
fn oracle_is_configured_when_not_null() {
    let mut registry = sample_registry();
    assert!(!registry.has_oracle());
    registry.chainalysis_oracle = key(9);
    assert!(registry.has_oracle());
}

#[test]
fn pending_owner_is_set_when_not_null() {
    let mut registry = sample_registry();
    assert!(!registry.has_pending_owner());
    registry.pending_owner = key(5);
    assert!(registry.has_pending_owner());
}

#[test]
fn any_special_finds_a_special_address_anywhere() {
    let registry = sample_registry();
    assert!(!registry.any_special(&vec![]));
    assert!(!registry.any_special(&vec![key(3), key(4)]));
    assert!(registry.any_special(&vec![key(1), key(3)]));
    assert!(registry.any_special(&vec![key(3), key(2)]));
    assert!(registry.any_special(&vec![key(3), key(1), key(4)]));
}

#[test]
fn batch_length_bounds() {
    assert_eq!(MAX_BATCH_SIZE, 15);
    assert!(!valid_batch_len(0));
    assert!(valid_batch_len(1));
    assert!(valid_batch_len(15));
    assert!(!valid_batch_len(16));
    assert!(!valid_batch_len(usize::MAX));
}

#[test]
fn store_insert_get_remove() {
    let mut store = BlacklistStore::new();
    assert_eq!(store.len(), 0);
    let entry = BlacklistEntry { account: key(3), blacklisted: true, timestamp: 42 };
    assert!(store.insert(entry));
    assert_eq!(store.len(), 1);
    assert!(store.is_blacklisted(&key(3)));
    assert!(!store.is_blacklisted(&key(4)));
    assert_eq!(store.get(&key(3)), Some(entry));
    assert_eq!(store.get(&key(4)), None);
    assert_eq!(store.remove(&key(4)), None);
    assert_eq!(store.len(), 1);
    assert_eq!(store.remove(&key(3)), Some(entry));
    assert_eq!(store.len(), 0);
    assert!(!store.is_blacklisted(&key(3)));
    assert_eq!(store.get(&key(3)), None);
}

#[test]
fn store_keeps_one_entry_for_an_address() {
    let mut store = BlacklistStore::new();
    let first = BlacklistEntry { account: key(3), blacklisted: true, timestamp: 1 };
    let second = BlacklistEntry { account: key(3), blacklisted: true, timestamp: 2 };
    assert!(store.insert(first));
    assert!(!store.insert(second));
    assert_eq!(store.len(), 1);
    assert_eq!(store.get(&key(3)), Some(first));
}

#[test]
fn store_refuses_an_entry_with_the_flag_down() {
    let mut store = BlacklistStore::new();
    let stale = BlacklistEntry { account: key(3), blacklisted: false, timestamp: 1 };
    assert!(!store.insert(stale));
    assert_eq!(store.len(), 0);
    assert!(!store.is_blacklisted(&key(3)));
}

#[test]
fn store_entries_lists_each_record_once() {
    let mut store = BlacklistStore::new();
    for n in 3..8u8 {
        assert!(store.insert(BlacklistEntry { account: key(n), blacklisted: true, timestamp: n as i64 }));
    }
    assert_eq!(store.remove(&key(5)).map(|e| e.timestamp), Some(5));
    let entries = store.entries();
    assert_eq!(entries.len(), 4);
    for n in [3u8, 4, 6, 7] {
        assert_eq!(entries.iter().filter(|e| e.account == key(n)).count(), 1);
        assert_eq!(store.get(&key(n)).map(|e| e.timestamp), Some(n as i64));
    }
    assert!(entries.iter().all(|e| e.account != key(5)));
}

#[test]
fn removing_from_the_middle_keeps_the_others() {
    let mut store = BlacklistStore::new();
    for n in 10..20u8 {
        assert!(store.insert(BlacklistEntry { account: key(n), blacklisted: true, timestamp: 0 }));
    }
    assert!(store.remove(&key(10)).is_some());
    assert!(store.remove(&key(19)).is_some());
    assert!(store.remove(&key(14)).is_some());
    assert_eq!(store.len(), 7);
    for n in 10..20u8 {
        assert_eq!(store.is_blacklisted(&key(n)), n != 10 && n != 14 && n != 19);
    }
}

#[test]
fn every_error_has_its_message() {
    assert_eq!(AccessRegistryError::AlreadyInitialized.message(), "Registry already initialized");
    assert_eq!(AccessRegistryError::Unauthorized.message(), "Unauthorized: caller is not the owner");
    assert_eq!(AccessRegistryError::InvalidBatchSize.message(), "Batch size must be between 1 and 15");
    assert_eq!(AccessRegistryError::OracleFailure.message(), "Chainalysis oracle call failed");
    assert_eq!(
        AccessRegistryError::CannotBlacklistSpecialAddress.message(),
        "Cannot blacklist registry owner or pool factory owner"
    );
    assert_eq!(AccessRegistryError::AlreadyBlacklisted.message(), "Address is already blacklisted");
    assert_eq!(AccessRegistryError::NotBlacklisted.message(), "Address is not blacklisted");
    assert_eq!(AccessRegistryError::InvalidPendingOwner.message(), "Invalid pending owner address");
    assert_eq!(AccessRegistryError::NotPendingOwner.message(), "Not the pending owner");
    assert_eq!(AccessRegistryError::NoPendingTransfer.message(), "No pending owner transfer");
    assert_eq!(AccessRegistryError::InvalidOracleAddress.message(), "Invalid oracle program address");
    assert_eq!(AccessRegistryError::InvalidPoolFactoryAddress.message(), "Invalid pool factory address");
    assert_eq!(AccessRegistryError::ArrayLengthMismatch.message(), "Array length mismatch");
}

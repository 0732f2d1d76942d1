use access_registry::error::{AccessRegistryError, OracleFailure};
use access_registry::instructions::is_approved::{conclude, precheck};
use access_registry::{
    get_approved_batch, is_approved, is_sanctioned_by_chainalysis, set_blacklisted, AccessRegistry,
    Address, ApprovalStep, BlacklistEntry, BlacklistStore,
};

fn party(n: u8) -> Address {
    Address::new([n; 32])
}

fn registry_with_oracle(oracle: Address) -> AccessRegistry {
    AccessRegistry {
        owner: party(1),
        pending_owner: Address::null(),
        chainalysis_oracle: oracle,
        pool_factory_owner: party(2),
        blacklist_count: 0,
    }
}

fn every_reply() -> Vec<Result<bool, OracleFailure>> {
    vec![
        Ok(false),
        Ok(true),
        Err(OracleFailure::Timeout),
        Err(OracleFailure::Malformed),
        Err(OracleFailure::Unreachable),
    ]
}

#[test]
fn owner_is_approved_whatever_the_oracle_says() {
    let registry = registry_with_oracle(party(9));
    let store = BlacklistStore::new();
    for reply in every_reply() {
        assert!(is_approved(&registry, &store, party(1), &reply));
    }
    assert_eq!(precheck(&registry, &store, &party(1)), ApprovalStep::Approved);
}

#[test]
fn pool_factory_owner_is_approved_whatever_the_oracle_says() {
    let registry = registry_with_oracle(party(9));
    let store = BlacklistStore::new();
    for reply in every_reply() {
        assert!(is_approved(&registry, &store, party(2), &reply));
    }
    assert_eq!(precheck(&registry, &store, &party(2)), ApprovalStep::Approved);
}

#[test]
fn owner_with_a_blacklist_entry_is_still_approved() {
    let mut registry = registry_with_oracle(party(9));
    let mut store = BlacklistStore::new();
    assert!(store.insert(BlacklistEntry { account: party(1), blacklisted: true, timestamp: 3 }));
    assert!(store.insert(BlacklistEntry { account: party(2), blacklisted: true, timestamp: 3 }));
    for reply in every_reply() {
        assert!(is_approved(&registry, &store, party(1), &reply));
        assert!(is_approved(&registry, &store, party(2), &reply));
    }
    registry.chainalysis_oracle = Address::null();
    assert!(is_approved(&registry, &store, party(1), &Ok(true)));
    assert_eq!(precheck(&registry, &store, &party(1)), ApprovalStep::Approved);
}

#[test]
fn blacklisted_address_is_rejected_without_the_oracle() {
    let mut registry = registry_with_oracle(party(9));
    let mut store = BlacklistStore::new();
    assert_eq!(set_blacklisted(&mut registry, &mut store, &party(1), party(5), true, 10), Ok(()));
    for reply in every_reply() {
        assert!(!is_approved(&registry, &store, party(5), &reply));
    }
    assert_eq!(precheck(&registry, &store, &party(5)), ApprovalStep::Rejected);
    registry.chainalysis_oracle = Address::null();
    assert!(!is_approved(&registry, &store, party(5), &Ok(false)));
}

#[test]
fn oracle_failure_rejects() {
    let registry = registry_with_oracle(party(9));
    let store = BlacklistStore::new();
    assert_eq!(precheck(&registry, &store, &party(5)), ApprovalStep::AskOracle);
    assert!(!is_approved(&registry, &store, party(5), &Err(OracleFailure::Timeout)));
    assert!(!is_approved(&registry, &store, party(5), &Err(OracleFailure::Malformed)));
    assert!(!is_approved(&registry, &store, party(5), &Err(OracleFailure::Unreachable)));
}

#[test]
fn oracle_answer_decides() {
    let registry = registry_with_oracle(party(9));
    let store = BlacklistStore::new();
    assert!(is_approved(&registry, &store, party(5), &Ok(false)));
    assert!(!is_approved(&registry, &store, party(5), &Ok(true)));
}

#[test]
fn without_oracle_an_unlisted_address_is_approved() {
    let registry = registry_with_oracle(Address::null());
    let store = BlacklistStore::new();
    assert_eq!(precheck(&registry, &store, &party(5)), ApprovalStep::Approved);
    for reply in every_reply() {
        assert!(is_approved(&registry, &store, party(5), &reply));
    }
}

#[test]
fn unblacklisted_address_is_approved_again() {
    let mut registry = registry_with_oracle(Address::null());
    let mut store = BlacklistStore::new();
    assert_eq!(set_blacklisted(&mut registry, &mut store, &party(1), party(5), true, 10), Ok(()));
    assert!(!is_approved(&registry, &store, party(5), &Ok(false)));
    assert_eq!(set_blacklisted(&mut registry, &mut store, &party(1), party(5), false, 11), Ok(()));
    assert!(is_approved(&registry, &store, party(5), &Ok(false)));
}

#[test]
fn conclude_allows_only_a_clear_answer() {
    assert!(conclude(&Ok(false)));
    assert!(!conclude(&Ok(true)));
    assert!(!conclude(&Err(OracleFailure::Timeout)));
    assert!(!conclude(&Err(OracleFailure::Malformed)));
    assert!(!conclude(&Err(OracleFailure::Unreachable)));
}

#[test]
fn oracle_only_check_passes_the_answer_on() {
    assert_eq!(is_sanctioned_by_chainalysis(&Ok(true)), Ok(true));
    assert_eq!(is_sanctioned_by_chainalysis(&Ok(false)), Ok(false));
}

#[test]
fn oracle_only_check_fails_when_the_oracle_fails() {
    for failure in [OracleFailure::Timeout, OracleFailure::Malformed, OracleFailure::Unreachable] {
        assert_eq!(is_sanctioned_by_chainalysis(&Err(failure)), Err(AccessRegistryError::OracleFailure));
    }
}

#[test]
fn approved_batch_answers_in_order() {
    let mut registry = registry_with_oracle(party(9));
    let mut store = BlacklistStore::new();
    assert_eq!(set_blacklisted(&mut registry, &mut store, &party(1), party(5), true, 10), Ok(()));
    let accounts = vec![party(1), party(5), party(6), party(7), party(2), party(8)];
    let replies = vec![
        Err(OracleFailure::Timeout),
        Ok(false),
        Ok(false),
        Ok(true),
        Ok(true),
        Err(OracleFailure::Unreachable),
    ];
    assert_eq!(
        get_approved_batch(&registry, &store, accounts.clone(), replies.clone()),
        Ok(vec![true, false, true, false, true, false])
    );
    for (account, reply) in accounts.iter().zip(replies.iter()) {
        let alone = is_approved(&registry, &store, *account, reply);
        let in_batch = get_approved_batch(&registry, &store, vec![*account], vec![*reply]);
        assert_eq!(in_batch, Ok(vec![alone]));
    }
    assert_eq!(registry.blacklist_count, 1);
    assert_eq!(store.len(), 1);
}

#[test]
fn approved_batch_size_bounds() {
    let registry = registry_with_oracle(Address::null());
    let store = BlacklistStore::new();
    assert_eq!(get_approved_batch(&registry, &store, vec![], vec![]), Err(AccessRegistryError::InvalidBatchSize));
    let sixteen: Vec<Address> = (10..26u8).map(party).collect();
    assert_eq!(
        get_approved_batch(&registry, &store, sixteen, vec![Ok(false); 16]),
        Err(AccessRegistryError::InvalidBatchSize)
    );
    assert_eq!(get_approved_batch(&registry, &store, vec![party(10)], vec![Ok(false)]), Ok(vec![true]));
    let fifteen: Vec<Address> = (10..25u8).map(party).collect();
    assert_eq!(get_approved_batch(&registry, &store, fifteen, vec![Ok(true); 15]), Ok(vec![true; 15]));
}

#[test]
fn approved_batch_needs_one_reply_for_each_address() {
    let registry = registry_with_oracle(party(9));
    let store = BlacklistStore::new();
    assert_eq!(
        get_approved_batch(&registry, &store, vec![party(10), party(11)], vec![Ok(false)]),
        Err(AccessRegistryError::ArrayLengthMismatch)
    );
    assert_eq!(
        get_approved_batch(&registry, &store, vec![party(10)], vec![Ok(false), Ok(false)]),
        Err(AccessRegistryError::ArrayLengthMismatch)
    );
    assert_eq!(
        get_approved_batch(&registry, &store, vec![party(10)], vec![]),
        Err(AccessRegistryError::ArrayLengthMismatch)
    );
    assert_eq!(
        get_approved_batch(&registry, &store, vec![], vec![Ok(false)]),
        Err(AccessRegistryError::InvalidBatchSize)
    );
}

use vstd::prelude::*;
use crate::address::Address;
use crate::error::AccessRegistryError;
use crate::instructions::set_blacklisted::fresh_entry;
use crate::instructions::set_blacklisted_batch::{
    apply, apply_each, lemma_apply_each, lemma_apply_each_keeps_invariant,
};
use crate::state::{count_matches, AccessRegistry, BlacklistEntry, MAX_BATCH_SIZE};
use crate::store::BlacklistStore;

verus! {

/// The registry record as it is made: `payer` owns it, no transfer is in
/// flight, and nothing is counted yet.
pub open spec fn created(
    payer: Address,
    chainalysis_oracle: Address,
    pool_factory_owner: Address,
) -> AccessRegistry {
    AccessRegistry {
        owner: payer,
        pending_owner: Address::spec_null(),
        chainalysis_oracle,
        pool_factory_owner,
        blacklist_count: 0,
    }
}

/// What creating the registry comes to: the new record and the first
/// blacklist, or the reason for which nothing is made.
///
/// `slot` is the place where the record is kept, taken or free. The checks
/// are made in this order: the place must be free; the pool factory owner
/// must be set; the first blacklist must not be longer than a batch; none of
/// its addresses may be special; and then each of them must take its entry.
pub open spec fn outcome(
    slot: Option<AccessRegistry>,
    payer: Address,
    chainalysis_oracle: Address,
    pool_factory_owner: Address,
    initial_blacklist: Seq<Address>,
    now: i64,
) -> Result<(AccessRegistry, Map<Address, BlacklistEntry>), AccessRegistryError> {
    let registry = created(payer, chainalysis_oracle, pool_factory_owner);
    if slot is Some {
        Err(AccessRegistryError::AlreadyInitialized)
    } else if pool_factory_owner.spec_is_null() {
        Err(AccessRegistryError::InvalidPoolFactoryAddress)
    } else if initial_blacklist.len() > MAX_BATCH_SIZE {
        Err(AccessRegistryError::InvalidBatchSize)
    } else if registry.spec_any_special(initial_blacklist) {
        Err(AccessRegistryError::CannotBlacklistSpecialAddress)
    } else {
        apply_each(
            registry,
            Map::<Address, BlacklistEntry>::empty(),
            payer,
            initial_blacklist,
            true,
            now,
        )
    }
}

/// Creates the registry in the free place `slot`, owned by `payer`, and
/// returns the blacklist that it starts with: an entry, made at time `now`,
/// for each address of `initial_blacklist`.
///
/// On failure `slot` stays as it was.
pub fn handler(
    slot: &mut Option<AccessRegistry>,
    payer: &Address,
    chainalysis_oracle: Address,
    pool_factory_owner: Address,
    initial_blacklist: Vec<Address>,
    now: i64,
) -> (result: Result<BlacklistStore, AccessRegistryError>)
    ensures
        match outcome(
            *old(slot),
            *payer,
            chainalysis_oracle,
            pool_factory_owner,
            initial_blacklist@,
            now,
        ) {
            Ok((registry, entries)) => result is Ok && result->Ok_0.wf() && result->Ok_0@ == entries
                && *final(slot) == Some(registry),
            Err(e) => result is Err && result->Err_0 == e && *final(slot) == *old(slot),
        },
{
    if slot.is_some() {
        return Err(AccessRegistryError::AlreadyInitialized);
    }
    if pool_factory_owner.is_null() {
        return Err(AccessRegistryError::InvalidPoolFactoryAddress);
    }
    if initial_blacklist.len() > MAX_BATCH_SIZE {
        return Err(AccessRegistryError::InvalidBatchSize);
    }
    let mut registry = AccessRegistry {
        owner: *payer,
        pending_owner: Address::null(),
        chainalysis_oracle,
        pool_factory_owner,
        blacklist_count: 0,
    };
    if registry.any_special(&initial_blacklist) {
        return Err(AccessRegistryError::CannotBlacklistSpecialAddress);
    }
    let mut blacklist = BlacklistStore::new();
    proof {
        lemma_apply_each(registry, blacklist@, *payer, initial_blacklist@, true, now);
    }
    match apply(&mut registry, &mut blacklist, &initial_blacklist, true, now) {
        Ok(()) => {
            *slot = Some(registry);
            Ok(blacklist)
        },
        Err(e) => Err(e),
    }
}

/// The registry is made once: while the place is taken, creation is
/// refused, whatever is asked for.
pub proof fn lemma_initialize_once(
    existing: AccessRegistry,
    payer: Address,
    chainalysis_oracle: Address,
    pool_factory_owner: Address,
    initial_blacklist: Seq<Address>,
    now: i64,
)
    ensures
        outcome(
            Some(existing),
            payer,
            chainalysis_oracle,
            pool_factory_owner,
            initial_blacklist,
            now,
        ) == Err::<(AccessRegistry, Map<Address, BlacklistEntry>), AccessRegistryError>(
            AccessRegistryError::AlreadyInitialized,
        ),
{
}

/// What a successful creation leaves: the payer owns the registry, no
/// transfer is in flight, the oracle and the pool factory owner are as
/// given, the blacklist holds a fresh entry for each address of the first
/// blacklist and nothing else, none of them special, and the count is the
/// number of entries. With a payer that is not the null address the
/// registry is well formed.
pub proof fn lemma_initialize_establishes_invariant(
    payer: Address,
    chainalysis_oracle: Address,
    pool_factory_owner: Address,
    initial_blacklist: Seq<Address>,
    now: i64,
)
    requires
        outcome(
            None,
            payer,
            chainalysis_oracle,
            pool_factory_owner,
            initial_blacklist,
            now,
        ) is Ok,
    ensures
        ({
            let (registry, entries) = outcome(
                None,
                payer,
                chainalysis_oracle,
                pool_factory_owner,
                initial_blacklist,
                now,
            )->Ok_0;
            &&& registry.owner == payer
            &&& !registry.spec_has_pending_owner()
            &&& registry.chainalysis_oracle == chainalysis_oracle
            &&& registry.pool_factory_owner == pool_factory_owner
            &&& registry.blacklist_count == initial_blacklist.len()
            &&& !payer.spec_is_null() ==> registry.well_formed()
            &&& count_matches(registry, entries)
            &&& forall|a: Address| entries.dom().contains(a) <==> initial_blacklist.contains(a)
            &&& forall|a: Address| entries.dom().contains(a) ==> entries[a] == fresh_entry(a, now)
            &&& forall|a: Address|
                entries.dom().contains(a) ==> !registry.spec_is_special_address(a)
        }),
{
    let registry = created(payer, chainalysis_oracle, pool_factory_owner);
    let empty = Map::<Address, BlacklistEntry>::empty();
    lemma_apply_each(registry, empty, payer, initial_blacklist, true, now);
    lemma_apply_each_keeps_invariant(registry, empty, payer, initial_blacklist, true, now);
    assert forall|a: Address| initial_blacklist.contains(a) implies !registry.spec_is_special_address(
        a,
    ) by {
        let i = choose|i: int| 0 <= i < initial_blacklist.len() && initial_blacklist[i] == a;
        assert(!registry.spec_is_special_address(initial_blacklist[i]));
    }
}

} // verus!

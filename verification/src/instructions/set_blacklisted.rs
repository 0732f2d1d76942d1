use vstd::prelude::*;
use crate::address::Address;
use crate::error::AccessRegistryError;
use crate::state::{count_matches, AccessRegistry, BlacklistEntry};
use crate::store::BlacklistStore;

verus! {

/// The record that blacklisting `account` at time `now` makes.
pub open spec fn fresh_entry(account: Address, now: i64) -> BlacklistEntry {
    BlacklistEntry { account, blacklisted: true, timestamp: now }
}

/// `count` raised by `by`, stopping at the largest value.
pub open spec fn count_raised(count: u32, by: nat) -> u32 {
    if count + by > u32::MAX {
        u32::MAX
    } else {
        (count + by) as u32
    }
}

/// `count` lowered by `by`, stopping at zero.
pub open spec fn count_lowered(count: u32, by: nat) -> u32 {
    if count < by {
        0
    } else {
        (count - by) as u32
    }
}

/// `registry` with its count of blacklist entries set to `count`.
pub open spec fn with_count(registry: AccessRegistry, count: u32) -> AccessRegistry {
    AccessRegistry { blacklist_count: count, ..registry }
}

/// What a change of one address's blacklist status comes to: the registry
/// and the blacklist after it, or the reason for which nothing changes.
///
/// The checks are made in this order: the caller must be the owner; the
/// address must not be special; and the address must not be in the state
/// asked for already.
pub open spec fn outcome(
    registry: AccessRegistry,
    blacklist: Map<Address, BlacklistEntry>,
    authority: Address,
    account: Address,
    blacklisted: bool,
    now: i64,
) -> Result<(AccessRegistry, Map<Address, BlacklistEntry>), AccessRegistryError> {
    if registry.owner != authority {
        Err(AccessRegistryError::Unauthorized)
    } else if registry.spec_is_special_address(account) {
        Err(AccessRegistryError::CannotBlacklistSpecialAddress)
    } else if blacklisted {
        if blacklist.dom().contains(account) {
            Err(AccessRegistryError::AlreadyBlacklisted)
        } else {
            Ok(
                (
                    with_count(registry, count_raised(registry.blacklist_count, 1)),
                    blacklist.insert(account, fresh_entry(account, now)),
                ),
            )
        }
    } else {
        if !blacklist.dom().contains(account) {
            Err(AccessRegistryError::NotBlacklisted)
        } else {
            Ok(
                (
                    with_count(registry, count_lowered(registry.blacklist_count, 1)),
                    blacklist.remove(account),
                ),
            )
        }
    }
}

/// Blacklists `account` (`blacklisted` is true) or takes it off the
/// blacklist (`blacklisted` is false), on behalf of `authority` and at time
/// `now`.
///
/// On success the entry is made or destroyed and the registry's count
/// follows; on failure the registry and the blacklist stay as they were.
pub fn handler(
    registry: &mut AccessRegistry,
    blacklist: &mut BlacklistStore,
    authority: &Address,
    account: Address,
    blacklisted: bool,
    now: i64,
) -> (result: Result<(), AccessRegistryError>)
    requires
        old(blacklist).wf(),
    ensures
        final(blacklist).wf(),
        match outcome(*old(registry), old(blacklist)@, *authority, account, blacklisted, now) {
            Ok((after, entries)) => result == Ok::<(), AccessRegistryError>(())
                && *final(registry) == after && final(blacklist)@ == entries,
            Err(e) => result == Err::<(), AccessRegistryError>(e) && *final(registry) == *old(
                registry,
            ) && final(blacklist)@ == old(blacklist)@,
        },
{
    if registry.owner != *authority {
        return Err(AccessRegistryError::Unauthorized);
    }
    if registry.is_special_address(&account) {
        return Err(AccessRegistryError::CannotBlacklistSpecialAddress);
    }
    if blacklisted {
        let entry = BlacklistEntry { account, blacklisted: true, timestamp: now };
        if !blacklist.insert(entry) {
            return Err(AccessRegistryError::AlreadyBlacklisted);
        }
        registry.blacklist_count = registry.blacklist_count.saturating_add(1);
    } else {
        if blacklist.remove(&account).is_none() {
            return Err(AccessRegistryError::NotBlacklisted);
        }
        registry.blacklist_count = registry.blacklist_count.saturating_sub(1);
    }
    Ok(())
}

/// Blacklisting an address a second time fails: after a successful
/// blacklisting the address has a live entry, and the same call, at
/// whatever time, is refused because the address is blacklisted already.
pub proof fn lemma_blacklist_twice(
    registry: AccessRegistry,
    blacklist: Map<Address, BlacklistEntry>,
    authority: Address,
    account: Address,
    now: i64,
    later: i64,
)
    requires
        outcome(registry, blacklist, authority, account, true, now) is Ok,
    ensures
        ({
            let (after, entries) = outcome(registry, blacklist, authority, account, true, now)->Ok_0;
            &&& !blacklist.dom().contains(account)
            &&& entries.dom().contains(account)
            &&& entries[account] == fresh_entry(account, now)
            &&& outcome(after, entries, authority, account, true, later) == Err::<
                (AccessRegistry, Map<Address, BlacklistEntry>),
                AccessRegistryError,
            >(AccessRegistryError::AlreadyBlacklisted)
        }),
{
}

/// Taking an address off the blacklist a second time fails: after a
/// successful removal the address has no entry, and the same call is
/// refused because the address is not blacklisted.
pub proof fn lemma_unblacklist_twice(
    registry: AccessRegistry,
    blacklist: Map<Address, BlacklistEntry>,
    authority: Address,
    account: Address,
    now: i64,
    later: i64,
)
    requires
        outcome(registry, blacklist, authority, account, false, now) is Ok,
    ensures
        ({
            let (after, entries) = outcome(registry, blacklist, authority, account, false, now)->Ok_0;
            &&& blacklist.dom().contains(account)
            &&& !entries.dom().contains(account)
            &&& outcome(after, entries, authority, account, false, later) == Err::<
                (AccessRegistry, Map<Address, BlacklistEntry>),
                AccessRegistryError,
            >(AccessRegistryError::NotBlacklisted)
        }),
{
}

/// An entry that was taken out leaves no trace: blacklisting the address
/// again makes the entry that a first blacklisting at that time would make.
pub proof fn lemma_blacklist_again_is_fresh(
    registry: AccessRegistry,
    blacklist: Map<Address, BlacklistEntry>,
    authority: Address,
    account: Address,
    now: i64,
    later: i64,
)
    requires
        outcome(registry, blacklist, authority, account, false, now) is Ok,
    ensures
        ({
            let (after, entries) = outcome(registry, blacklist, authority, account, false, now)->Ok_0;
            &&& outcome(after, entries, authority, account, true, later) is Ok
            &&& outcome(after, entries, authority, account, true, later)->Ok_0.1
                == blacklist.insert(account, fresh_entry(account, later))
        }),
{
    let (after, entries) = outcome(registry, blacklist, authority, account, false, now)->Ok_0;
    assert(entries.insert(account, fresh_entry(account, later)) =~= blacklist.insert(
        account,
        fresh_entry(account, later),
    ));
}

/// The status of a special address cannot be changed: whatever status the
/// owner asks for, the call is refused for that reason.
pub proof fn lemma_special_address_refused(
    registry: AccessRegistry,
    blacklist: Map<Address, BlacklistEntry>,
    authority: Address,
    account: Address,
    blacklisted: bool,
    now: i64,
)
    requires
        registry.owner == authority,
        registry.spec_is_special_address(account),
    ensures
        outcome(registry, blacklist, authority, account, blacklisted, now) == Err::<
            (AccessRegistry, Map<Address, BlacklistEntry>),
            AccessRegistryError,
        >(AccessRegistryError::CannotBlacklistSpecialAddress),
{
}

/// Whoever calls, the status of a special address does not change.
pub proof fn lemma_special_address_untouched(
    registry: AccessRegistry,
    blacklist: Map<Address, BlacklistEntry>,
    authority: Address,
    account: Address,
    blacklisted: bool,
    now: i64,
)
    requires
        registry.spec_is_special_address(account),
    ensures
        outcome(registry, blacklist, authority, account, blacklisted, now) is Err,
{
}

/// A successful change touches the count and the one entry, and nothing
/// else: the registry stays well formed, and a count that was the number of
/// entries is so again, as long as it can still grow.
pub proof fn lemma_change_keeps_invariant(
    registry: AccessRegistry,
    blacklist: Map<Address, BlacklistEntry>,
    authority: Address,
    account: Address,
    blacklisted: bool,
    now: i64,
)
    requires
        outcome(registry, blacklist, authority, account, blacklisted, now) is Ok,
    ensures
        ({
            let (after, entries) = outcome(
                registry,
                blacklist,
                authority,
                account,
                blacklisted,
                now,
            )->Ok_0;
            &&& after == with_count(registry, after.blacklist_count)
            &&& registry.well_formed() ==> after.well_formed()
            &&& forall|other: Address|
                other != account ==> (entries.dom().contains(other) <==> blacklist.dom().contains(
                    other,
                ))
            &&& forall|other: Address|
                other != account && blacklist.dom().contains(other) ==> entries[other]
                    == blacklist[other]
            &&& count_matches(registry, blacklist) && (blacklisted ==> registry.blacklist_count
                < u32::MAX) ==> count_matches(after, entries)
        }),
{
}

} // verus!

use vstd::prelude::*;
use crate::address::Address;
use crate::error::AccessRegistryError;
use crate::state::AccessRegistry;

verus! {

/// What a nomination comes to: the registry with the nominee recorded, or
/// the reason for which nothing changes.
///
/// The caller must be the owner, and the nominee must be neither the null
/// address nor a special address. An earlier nomination is overwritten.
pub open spec fn outcome(
    registry: AccessRegistry,
    authority: Address,
    pending_owner: Address,
) -> Result<AccessRegistry, AccessRegistryError> {
    if registry.owner != authority {
        Err(AccessRegistryError::Unauthorized)
    } else if pending_owner.spec_is_null() || registry.spec_is_special_address(pending_owner) {
        Err(AccessRegistryError::InvalidPendingOwner)
    } else {
        Ok(AccessRegistry { pending_owner, ..registry })
    }
}

/// Nominates `pending_owner` as the next owner, on behalf of `authority`.
///
/// The nominee becomes owner only by accepting. On failure the registry
/// stays as it was.
pub fn handler(
    registry: &mut AccessRegistry,
    authority: &Address,
    pending_owner: Address,
) -> (result: Result<(), AccessRegistryError>)
    ensures
        match outcome(*old(registry), *authority, pending_owner) {
            Ok(after) => result == Ok::<(), AccessRegistryError>(()) && *final(registry) == after,
            Err(e) => result == Err::<(), AccessRegistryError>(e) && *final(registry) == *old(
                registry,
            ),
        },
{
    if registry.owner != *authority {
        return Err(AccessRegistryError::Unauthorized);
    }
    if pending_owner.is_null() || registry.is_special_address(&pending_owner) {
        return Err(AccessRegistryError::InvalidPendingOwner);
    }
    registry.pending_owner = pending_owner;
    Ok(())
}

/// A nomination that succeeds records the nominee and changes nothing
/// else; the registry stays well formed.
pub proof fn lemma_nomination_recorded(
    registry: AccessRegistry,
    authority: Address,
    pending_owner: Address,
)
    requires
        outcome(registry, authority, pending_owner) is Ok,
    ensures
        ({
            let after = outcome(registry, authority, pending_owner)->Ok_0;
            &&& after.pending_owner == pending_owner
            &&& after.spec_has_pending_owner()
            &&& after.owner == registry.owner
            &&& after.chainalysis_oracle == registry.chainalysis_oracle
            &&& after.pool_factory_owner == registry.pool_factory_owner
            &&& after.blacklist_count == registry.blacklist_count
            &&& registry.well_formed() ==> after.well_formed()
        }),
{
}

/// The last nomination wins: a nomination made while another is in flight
/// comes to what it would come to without the other.
pub proof fn lemma_nomination_overwrites(
    registry: AccessRegistry,
    authority: Address,
    first: Address,
    second: Address,
)
    requires
        outcome(registry, authority, first) is Ok,
    ensures
        outcome(outcome(registry, authority, first)->Ok_0, authority, second) == outcome(
            registry,
            authority,
            second,
        ),
{
}

} // verus!

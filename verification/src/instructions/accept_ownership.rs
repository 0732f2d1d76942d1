use vstd::prelude::*;
use crate::address::Address;
use crate::error::AccessRegistryError;
use crate::instructions::transfer_ownership;
use crate::state::AccessRegistry;

verus! {

/// What an acceptance comes to: the registry with the nominee as owner and
/// no transfer in flight, or the reason for which nothing changes.
///
/// There must be a nominee, and the caller must be the nominee.
pub open spec fn outcome(registry: AccessRegistry, signer: Address) -> Result<
    AccessRegistry,
    AccessRegistryError,
> {
    if !registry.spec_has_pending_owner() {
        Err(AccessRegistryError::NoPendingTransfer)
    } else if registry.pending_owner != signer {
        Err(AccessRegistryError::NotPendingOwner)
    } else {
        Ok(
            AccessRegistry {
                owner: registry.pending_owner,
                pending_owner: Address::spec_null(),
                ..registry
            },
        )
    }
}

/// Completes the ownership transfer in flight, on behalf of `signer`.
///
/// On failure the registry stays as it was.
pub fn handler(registry: &mut AccessRegistry, signer: &Address) -> (result: Result<
    (),
    AccessRegistryError,
>)
    ensures
        match outcome(*old(registry), *signer) {
            Ok(after) => result == Ok::<(), AccessRegistryError>(()) && *final(registry) == after,
            Err(e) => result == Err::<(), AccessRegistryError>(e) && *final(registry) == *old(
                registry,
            ),
        },
{
    if !registry.has_pending_owner() {
        return Err(AccessRegistryError::NoPendingTransfer);
    }
    if registry.pending_owner != *signer {
        return Err(AccessRegistryError::NotPendingOwner);
    }
    registry.owner = registry.pending_owner;
    registry.pending_owner = Address::null();
    Ok(())
}

/// One transfer from start to end. Once the owner has nominated `nominee`,
/// nobody else can accept, and the registry stays as it is when somebody
/// else tries; when the nominee accepts, the nominee is the owner and no
/// transfer is in flight; and after that nobody can accept anything.
pub proof fn lemma_transfer_cycle(
    registry: AccessRegistry,
    nominee: Address,
    other: Address,
    anyone: Address,
)
    requires
        transfer_ownership::outcome(registry, registry.owner, nominee) is Ok,
        other != nominee,
    ensures
        ({
            let nominated = transfer_ownership::outcome(registry, registry.owner, nominee)->Ok_0;
            let accepted = outcome(nominated, nominee);
            &&& nominated.pending_owner == nominee
            &&& outcome(nominated, other) == Err::<AccessRegistry, AccessRegistryError>(
                AccessRegistryError::NotPendingOwner,
            )
            &&& accepted is Ok
            &&& accepted->Ok_0.owner == nominee
            &&& accepted->Ok_0.pending_owner.spec_is_null()
            &&& outcome(accepted->Ok_0, anyone) == Err::<AccessRegistry, AccessRegistryError>(
                AccessRegistryError::NoPendingTransfer,
            )
        }),
{
}

/// An acceptance that succeeds changes the owner and the nominee and
/// nothing else; the registry stays well formed.
pub proof fn lemma_acceptance_keeps_invariant(registry: AccessRegistry, signer: Address)
    requires
        outcome(registry, signer) is Ok,
    ensures
        ({
            let after = outcome(registry, signer)->Ok_0;
            &&& after.owner == signer
            &&& !after.spec_has_pending_owner()
            &&& after.chainalysis_oracle == registry.chainalysis_oracle
            &&& after.pool_factory_owner == registry.pool_factory_owner
            &&& after.blacklist_count == registry.blacklist_count
            &&& registry.well_formed() ==> after.well_formed()
        }),
{
}

/// While no transfer is in flight, nobody can accept.
pub proof fn lemma_nothing_to_accept(registry: AccessRegistry, signer: Address)
    requires
        !registry.spec_has_pending_owner(),
    ensures
        outcome(registry, signer) == Err::<AccessRegistry, AccessRegistryError>(
            AccessRegistryError::NoPendingTransfer,
        ),
{
}

} // verus!

use vstd::prelude::*;
use crate::address::Address;

verus! {

/// Largest number of addresses that one batch operation accepts.
pub const MAX_BATCH_SIZE: usize = 15;

/// `len` is a length that a batch may have.
pub open spec fn spec_valid_batch_len(len: nat) -> bool {
    1 <= len <= MAX_BATCH_SIZE
}

/// Whether `len` is a length that a batch may have: at least one address
/// and no more than the batch limit.
pub fn valid_batch_len(len: usize) -> (r: bool)
    ensures
        r == spec_valid_batch_len(len as nat),
{
    1 <= len && len <= MAX_BATCH_SIZE
}

/// The registry's configuration record, of which there is one.
#[derive(Clone, Copy, Debug, PartialEq, Eq)]
pub struct AccessRegistry {
    /// The address with administrative authority.
    pub owner: Address,
    /// The address nominated to become owner, or the null address while no
    /// transfer is in flight.
    pub pending_owner: Address,
    /// The sanctions oracle; the null address switches oracle checks off.
    pub chainalysis_oracle: Address,
    /// The pool factory owner: always approved, never blacklisted.
    pub pool_factory_owner: Address,
    /// The number of live blacklist entries.
    pub blacklist_count: u32,
}

/// The record kept for one blacklisted address.
#[derive(Clone, Copy, Debug, PartialEq, Eq)]
pub struct BlacklistEntry {
    /// The address that the entry is about.
    pub account: Address,
    /// The status flag; an entry with the flag down counts as absent.
    pub blacklisted: bool,
    /// The time at which the entry was made.
    pub timestamp: i64,
}

/// The registry's count is the number of entries of `blacklist`.
pub open spec fn count_matches(
    registry: AccessRegistry,
    blacklist: Map<Address, BlacklistEntry>,
) -> bool {
    blacklist.dom().finite() && registry.blacklist_count == blacklist.dom().len()
}

impl AccessRegistry {
    /// `address` is the registry owner.
    pub open spec fn spec_is_registry_owner(&self, address: Address) -> bool {
        self.owner == address
    }

    /// `address` is the pool factory owner.
    pub open spec fn spec_is_pool_factory_owner(&self, address: Address) -> bool {
        self.pool_factory_owner == address
    }

    /// `address` is one of the two special addresses.
    pub open spec fn spec_is_special_address(&self, address: Address) -> bool {
        self.spec_is_registry_owner(address) || self.spec_is_pool_factory_owner(address)
    }

    /// One of `accounts` is special.
    pub open spec fn spec_any_special(&self, accounts: Seq<Address>) -> bool {
        exists|i: int|
            0 <= i < accounts.len() && #[trigger] self.spec_is_special_address(accounts[i])
    }

    /// An oracle is configured.
    pub open spec fn spec_has_oracle(&self) -> bool {
        !self.chainalysis_oracle.spec_is_null()
    }

    /// An ownership transfer is in flight.
    pub open spec fn spec_has_pending_owner(&self) -> bool {
        !self.pending_owner.spec_is_null()
    }

    /// What holds of the record from its creation on: the owner and the pool
    /// factory owner are set, and a nominee, if there is one, is not special.
    pub open spec fn well_formed(&self) -> bool {
        &&& !self.owner.spec_is_null()
        &&& !self.pool_factory_owner.spec_is_null()
        &&& (self.spec_has_pending_owner() ==> !self.spec_is_special_address(self.pending_owner))
    }

    /// Whether `address` is the registry owner.
    pub fn is_registry_owner(&self, address: &Address) -> (r: bool)
        ensures
            r == self.spec_is_registry_owner(*address),
    {
        self.owner == *address
    }

    /// Whether `address` is the pool factory owner.
    pub fn is_pool_factory_owner(&self, address: &Address) -> (r: bool)
        ensures
            r == self.spec_is_pool_factory_owner(*address),
    {
        self.pool_factory_owner == *address
    }

    /// Whether `address` is special: the registry owner or the pool factory
    /// owner.
    pub fn is_special_address(&self, address: &Address) -> (r: bool)
        ensures
            r == self.spec_is_special_address(*address),
    {
        self.is_registry_owner(address) || self.is_pool_factory_owner(address)
    }

    /// Whether one of `accounts` is special.
    pub fn any_special(&self, accounts: &Vec<Address>) -> (r: bool)
        ensures
            r == self.spec_any_special(accounts@),
    {
        let mut i: usize = 0;
        while i < accounts.len()
            invariant
                i <= accounts@.len(),
                forall|j: int| 0 <= j < i ==> !#[trigger] self.spec_is_special_address(accounts@[j]),
            decreases accounts@.len() - i,
        {
            if self.is_special_address(&accounts[i]) {
                return true;
            }
            i += 1;
        }
        false
    }

    /// Whether an oracle is configured.
    pub fn has_oracle(&self) -> (r: bool)
        ensures
            r == self.spec_has_oracle(),
    {
        !self.chainalysis_oracle.is_null()
    }

    /// Whether an ownership transfer is in flight.
    pub fn has_pending_owner(&self) -> (r: bool)
        ensures
            r == self.spec_has_pending_owner(),
    {
        !self.pending_owner.is_null()
    }
}

} // verus!

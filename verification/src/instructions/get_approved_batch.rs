use vstd::prelude::*;
use crate::address::Address;
use crate::error::{AccessRegistryError, OracleFailure};
use crate::instructions::is_approved;
use crate::instructions::is_approved::approved;
use crate::state::{
    spec_valid_batch_len, valid_batch_len, AccessRegistry, BlacklistEntry, MAX_BATCH_SIZE,
};
use crate::store::BlacklistStore;

verus! {

/// The decisions for `accounts`, one for each and in their order, where
/// `replies[i]` is what the oracle said of `accounts[i]`.
pub open spec fn decisions(
    registry: AccessRegistry,
    blacklist: Map<Address, BlacklistEntry>,
    accounts: Seq<Address>,
    replies: Seq<Result<bool, OracleFailure>>,
) -> Seq<bool> {
    Seq::new(accounts.len(), |i: int| approved(registry, blacklist, accounts[i], replies[i]))
}

/// What asking about a batch comes to: the decisions, or the reason for
/// which none is given. The batch must have an admissible length, and there
/// must be one reply for each address.
pub open spec fn outcome(
    registry: AccessRegistry,
    blacklist: Map<Address, BlacklistEntry>,
    accounts: Seq<Address>,
    replies: Seq<Result<bool, OracleFailure>>,
) -> Result<Seq<bool>, AccessRegistryError> {
    if !spec_valid_batch_len(accounts.len()) {
        Err(AccessRegistryError::InvalidBatchSize)
    } else if replies.len() != accounts.len() {
        Err(AccessRegistryError::ArrayLengthMismatch)
    } else {
        Ok(decisions(registry, blacklist, accounts, replies))
    }
}

/// Whether each of `accounts` is allowed, where `replies[i]` is what the
/// oracle said of `accounts[i]`. Nothing is changed.
pub fn handler(
    registry: &AccessRegistry,
    blacklist: &BlacklistStore,
    accounts: Vec<Address>,
    replies: Vec<Result<bool, OracleFailure>>,
) -> (result: Result<Vec<bool>, AccessRegistryError>)
    requires
        blacklist.wf(),
    ensures
        match outcome(*registry, blacklist@, accounts@, replies@) {
            Ok(allowed) => result is Ok && result->Ok_0@ == allowed,
            Err(e) => result is Err && result->Err_0 == e,
        },
{
    if !valid_batch_len(accounts.len()) {
        return Err(AccessRegistryError::InvalidBatchSize);
    }
    if replies.len() != accounts.len() {
        return Err(AccessRegistryError::ArrayLengthMismatch);
    }
    let mut allowed: Vec<bool> = Vec::new();
    let mut i: usize = 0;
    while i < accounts.len()
        invariant
            blacklist.wf(),
            i <= accounts@.len(),
            replies@.len() == accounts@.len(),
            allowed@.len() == i,
            forall|k: int|
                0 <= k < i ==> allowed@[k] == approved(
                    *registry,
                    blacklist@,
                    accounts@[k],
                    replies@[k],
                ),
        decreases accounts@.len() - i,
    {
        allowed.push(is_approved::handler(registry, blacklist, accounts[i], &replies[i]));
        i += 1;
    }
    proof {
        assert(allowed@ =~= decisions(*registry, blacklist@, accounts@, replies@));
    }
    Ok(allowed)
}

/// There is one decision for each address, in the order of the addresses,
/// and each is the decision that asking about the address alone gives.
pub proof fn lemma_decisions_in_order(
    registry: AccessRegistry,
    blacklist: Map<Address, BlacklistEntry>,
    accounts: Seq<Address>,
    replies: Seq<Result<bool, OracleFailure>>,
)
    requires
        outcome(registry, blacklist, accounts, replies) is Ok,
    ensures
        1 <= accounts.len() <= MAX_BATCH_SIZE,
        replies.len() == accounts.len(),
        outcome(registry, blacklist, accounts, replies)->Ok_0.len() == accounts.len(),
        forall|i: int|
            0 <= i < accounts.len() ==> #[trigger] outcome(
                registry,
                blacklist,
                accounts,
                replies,
            )->Ok_0[i] == approved(registry, blacklist, accounts[i], replies[i]),
{
}

/// A batch of a length that is not admissible is refused for its length.
pub proof fn lemma_batch_size_refused(
    registry: AccessRegistry,
    blacklist: Map<Address, BlacklistEntry>,
    accounts: Seq<Address>,
    replies: Seq<Result<bool, OracleFailure>>,
)
    requires
        accounts.len() == 0 || accounts.len() > MAX_BATCH_SIZE,
    ensures
        outcome(registry, blacklist, accounts, replies) == Err::<Seq<bool>, AccessRegistryError>(
            AccessRegistryError::InvalidBatchSize,
        ),
{
}

} // verus!

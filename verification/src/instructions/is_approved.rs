use vstd::prelude::*;
use crate::address::Address;
use crate::error::OracleFailure;
use crate::state::{AccessRegistry, BlacklistEntry};
use crate::store::BlacklistStore;

verus! {

/// How far the registry's own records decide whether an address is allowed.
#[derive(Clone, Copy, Debug, PartialEq, Eq, Structural)]
pub enum ApprovalStep {
    /// The address is allowed; the oracle is not asked.
    Approved,
    /// The address is refused; the oracle is not asked.
    Rejected,
    /// The oracle's answer decides.
    AskOracle,
}

/// What the registry's own records say of `account`, in this order: the
/// owner is allowed; the pool factory owner is allowed; a blacklisted
/// address is refused; with an oracle configured, the oracle decides;
/// otherwise the address is allowed.
pub open spec fn first_step(
    registry: AccessRegistry,
    blacklist: Map<Address, BlacklistEntry>,
    account: Address,
) -> ApprovalStep {
    if registry.spec_is_registry_owner(account) {
        ApprovalStep::Approved
    } else if registry.spec_is_pool_factory_owner(account) {
        ApprovalStep::Approved
    } else if blacklist.dom().contains(account) {
        ApprovalStep::Rejected
    } else if registry.spec_has_oracle() {
        ApprovalStep::AskOracle
    } else {
        ApprovalStep::Approved
    }
}

/// What the oracle's reply comes to: only the answer "not sanctioned"
/// allows; the answer "sanctioned" and every failure refuse.
pub open spec fn cleared(reply: Result<bool, OracleFailure>) -> bool {
    reply == Ok::<bool, OracleFailure>(false)
}

/// Whether `account` is allowed, where `reply` is what the oracle said of
/// it. The reply counts only where the registry's own records leave the
/// decision to the oracle.
pub open spec fn approved(
    registry: AccessRegistry,
    blacklist: Map<Address, BlacklistEntry>,
    account: Address,
    reply: Result<bool, OracleFailure>,
) -> bool {
    match first_step(registry, blacklist, account) {
        ApprovalStep::Approved => true,
        ApprovalStep::Rejected => false,
        ApprovalStep::AskOracle => cleared(reply),
    }
}

/// Decides as far as the registry's own records go, and says whether the
/// oracle has to be asked about `account`.
pub fn precheck(registry: &AccessRegistry, blacklist: &BlacklistStore, account: &Address) -> (step:
    ApprovalStep)
    requires
        blacklist.wf(),
    ensures
        step == first_step(*registry, blacklist@, *account),
{
    if registry.is_registry_owner(account) {
        ApprovalStep::Approved
    } else if registry.is_pool_factory_owner(account) {
        ApprovalStep::Approved
    } else if blacklist.is_blacklisted(account) {
        ApprovalStep::Rejected
    } else if registry.has_oracle() {
        ApprovalStep::AskOracle
    } else {
        ApprovalStep::Approved
    }
}

/// Turns the oracle's reply into a decision; a question that brought no
/// answer refuses.
pub fn conclude(reply: &Result<bool, OracleFailure>) -> (allowed: bool)
    ensures
        allowed == cleared(*reply),
{
    match reply {
        Ok(sanctioned) => !*sanctioned,
        Err(_) => false,
    }
}

/// Whether `account` is allowed, where `reply` is what the oracle said of
/// it.
///
/// The reply is read only for an address that is neither special nor
/// blacklisted, and only where an oracle is configured.
pub fn handler(
    registry: &AccessRegistry,
    blacklist: &BlacklistStore,
    account: Address,
    reply: &Result<bool, OracleFailure>,
) -> (allowed: bool)
    requires
        blacklist.wf(),
    ensures
        allowed == approved(*registry, blacklist@, account, *reply),
{
    match precheck(registry, blacklist, &account) {
        ApprovalStep::Approved => true,
        ApprovalStep::Rejected => false,
        ApprovalStep::AskOracle => conclude(reply),
    }
}

/// The special addresses are allowed whatever else holds: a blacklist
/// entry for one of them, or an oracle that says no or does not answer,
/// changes nothing.
pub proof fn lemma_special_address_approved(
    registry: AccessRegistry,
    blacklist: Map<Address, BlacklistEntry>,
    account: Address,
    reply: Result<bool, OracleFailure>,
)
    requires
        registry.spec_is_special_address(account),
    ensures
        first_step(registry, blacklist, account) == ApprovalStep::Approved,
        approved(registry, blacklist, account, reply),
{
}

/// A blacklisted address that is not special is refused without the
/// oracle, whatever the oracle would say.
pub proof fn lemma_blacklisted_rejected(
    registry: AccessRegistry,
    blacklist: Map<Address, BlacklistEntry>,
    account: Address,
    reply: Result<bool, OracleFailure>,
)
    requires
        !registry.spec_is_special_address(account),
        blacklist.dom().contains(account),
    ensures
        first_step(registry, blacklist, account) == ApprovalStep::Rejected,
        !approved(registry, blacklist, account, reply),
{
}

/// Where the decision is the oracle's and the oracle does not answer, the
/// address is refused.
pub proof fn lemma_fail_closed(
    registry: AccessRegistry,
    blacklist: Map<Address, BlacklistEntry>,
    account: Address,
    failure: OracleFailure,
)
    requires
        !registry.spec_is_special_address(account),
        !blacklist.dom().contains(account),
        registry.spec_has_oracle(),
    ensures
        first_step(registry, blacklist, account) == ApprovalStep::AskOracle,
        !approved(registry, blacklist, account, Err::<bool, OracleFailure>(failure)),
{
}

/// Where the decision is the oracle's and the oracle answers, the address
/// is allowed exactly when it is not sanctioned.
pub proof fn lemma_oracle_decides(
    registry: AccessRegistry,
    blacklist: Map<Address, BlacklistEntry>,
    account: Address,
    sanctioned: bool,
)
    requires
        !registry.spec_is_special_address(account),
        !blacklist.dom().contains(account),
        registry.spec_has_oracle(),
    ensures
        approved(registry, blacklist, account, Ok::<bool, OracleFailure>(sanctioned)) == !sanctioned,
{
}

/// Without an oracle the registry's own records decide alone: an address
/// is allowed exactly when it is special or not blacklisted.
pub proof fn lemma_without_oracle(
    registry: AccessRegistry,
    blacklist: Map<Address, BlacklistEntry>,
    account: Address,
    reply: Result<bool, OracleFailure>,
)
    requires
        !registry.spec_has_oracle(),
    ensures
        approved(registry, blacklist, account, reply) == (registry.spec_is_special_address(account)
            || !blacklist.dom().contains(account)),
{
}

} // verus!

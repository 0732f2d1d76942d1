use vstd::prelude::*;
use crate::address::Address;
use crate::error::AccessRegistryError;
use crate::instructions::set_blacklisted;
use crate::instructions::set_blacklisted::{count_lowered, count_raised, fresh_entry, with_count};
use crate::state::{
    count_matches, spec_valid_batch_len, valid_batch_len, AccessRegistry, BlacklistEntry,
    MAX_BATCH_SIZE,
};
use crate::store::BlacklistStore;

verus! {

/// What it comes to when the status of each of `accounts` is changed in
/// turn, each change as a single change would be made, and the first
/// failure ends the run.
pub open spec fn apply_each(
    registry: AccessRegistry,
    blacklist: Map<Address, BlacklistEntry>,
    authority: Address,
    accounts: Seq<Address>,
    blacklisted: bool,
    now: i64,
) -> Result<(AccessRegistry, Map<Address, BlacklistEntry>), AccessRegistryError>
    decreases accounts.len(),
{
    if accounts.len() == 0 {
        Ok((registry, blacklist))
    } else {
        match apply_each(registry, blacklist, authority, accounts.drop_last(), blacklisted, now) {
            Ok((r, m)) => set_blacklisted::outcome(
                r,
                m,
                authority,
                accounts.last(),
                blacklisted,
                now,
            ),
            Err(e) => Err(e),
        }
    }
}

/// What a batch comes to: the registry and the blacklist after it, or the
/// reason for which nothing changes.
///
/// The checks are made in this order: the caller must be the owner; the
/// batch must have an admissible length; none of its addresses may be
/// special; and then every single change must succeed.
pub open spec fn outcome(
    registry: AccessRegistry,
    blacklist: Map<Address, BlacklistEntry>,
    authority: Address,
    accounts: Seq<Address>,
    blacklisted: bool,
    now: i64,
) -> Result<(AccessRegistry, Map<Address, BlacklistEntry>), AccessRegistryError> {
    if registry.owner != authority {
        Err(AccessRegistryError::Unauthorized)
    } else if !spec_valid_batch_len(accounts.len()) {
        Err(AccessRegistryError::InvalidBatchSize)
    } else if registry.spec_any_special(accounts) {
        Err(AccessRegistryError::CannotBlacklistSpecialAddress)
    } else {
        apply_each(registry, blacklist, authority, accounts, blacklisted, now)
    }
}

/// None of `accounts` is blacklisted.
pub open spec fn all_absent(blacklist: Map<Address, BlacklistEntry>, accounts: Seq<Address>) -> bool {
    forall|i: int| 0 <= i < accounts.len() ==> !blacklist.dom().contains(#[trigger] accounts[i])
}

/// Each of `accounts` is blacklisted.
pub open spec fn all_present(blacklist: Map<Address, BlacklistEntry>, accounts: Seq<Address>) -> bool {
    forall|i: int| 0 <= i < accounts.len() ==> blacklist.dom().contains(#[trigger] accounts[i])
}

/// `blacklist` with a fresh record for each of `accounts`.
pub open spec fn with_batch(
    blacklist: Map<Address, BlacklistEntry>,
    accounts: Seq<Address>,
    now: i64,
) -> Map<Address, BlacklistEntry> {
    Map::new(
        |a: Address| blacklist.dom().contains(a) || accounts.contains(a),
        |a: Address|
            if accounts.contains(a) {
                fresh_entry(a, now)
            } else {
                blacklist[a]
            },
    )
}

/// `blacklist` without the records of `accounts`.
pub open spec fn without_batch(
    blacklist: Map<Address, BlacklistEntry>,
    accounts: Seq<Address>,
) -> Map<Address, BlacklistEntry> {
    Map::new(|a: Address| blacklist.dom().contains(a) && !accounts.contains(a), |a: Address| blacklist[a])
}

/// The run of single changes, said at once: blacklisting succeeds exactly
/// when the addresses differ from each other and none is blacklisted yet,
/// and then adds them all; taking off succeeds exactly when the addresses
/// differ from each other and all are blacklisted, and then removes them all.
pub open spec fn applied(
    registry: AccessRegistry,
    blacklist: Map<Address, BlacklistEntry>,
    accounts: Seq<Address>,
    blacklisted: bool,
    now: i64,
) -> Result<(AccessRegistry, Map<Address, BlacklistEntry>), AccessRegistryError> {
    if blacklisted {
        if accounts.no_duplicates() && all_absent(blacklist, accounts) {
            Ok(
                (
                    with_count(registry, count_raised(registry.blacklist_count, accounts.len())),
                    with_batch(blacklist, accounts, now),
                ),
            )
        } else {
            Err(AccessRegistryError::AlreadyBlacklisted)
        }
    } else {
        if accounts.no_duplicates() && all_present(blacklist, accounts) {
            Ok(
                (
                    with_count(registry, count_lowered(registry.blacklist_count, accounts.len())),
                    without_batch(blacklist, accounts),
                ),
            )
        } else {
            Err(AccessRegistryError::NotBlacklisted)
        }
    }
}

/// A list has no repeats exactly when its front has none and its last item
/// does not occur in the front.
proof fn lemma_no_duplicates_last(accounts: Seq<Address>)
    requires
        accounts.len() > 0,
    ensures
        accounts.no_duplicates() <==> (accounts.drop_last().no_duplicates()
            && !accounts.drop_last().contains(accounts.last())),
        forall|a: Address|
            accounts.contains(a) <==> (accounts.drop_last().contains(a) || a == accounts.last()),
{
    let front = accounts.drop_last();
    let last = accounts.last();
    assert forall|a: Address| accounts.contains(a) <==> (front.contains(a) || a == last) by {
        if accounts.contains(a) {
            let i = choose|i: int| 0 <= i < accounts.len() && accounts[i] == a;
            if i < front.len() {
                assert(front[i] == a);
            }
        }
        if front.contains(a) {
            let i = choose|i: int| 0 <= i < front.len() && front[i] == a;
            assert(accounts[i] == a);
        }
        if a == last {
            assert(accounts[accounts.len() - 1] == a);
        }
    }
    if accounts.no_duplicates() {
        assert forall|i: int, j: int| 0 <= i < front.len() && 0 <= j < front.len() && i != j implies front[i]
            != front[j] by {
            assert(accounts[i] != accounts[j]);
        }
        if front.contains(last) {
            let i = choose|i: int| 0 <= i < front.len() && front[i] == last;
            assert(accounts[i] != accounts[accounts.len() - 1]);
        }
    }
    if front.no_duplicates() && !front.contains(last) {
        assert forall|i: int, j: int|
            0 <= i < accounts.len() && 0 <= j < accounts.len() && i != j implies accounts[i]
            != accounts[j] by {
            if i < front.len() && j < front.len() {
                assert(front[i] != front[j]);
            } else if i < front.len() {
                assert(front[i] == accounts[i]);
            } else {
                assert(front[j] == accounts[j]);
            }
        }
    }
}

/// Once the caller is known to be the owner and no address of the batch is
/// special, the run of single changes comes to what `applied` says.
pub proof fn lemma_apply_each(
    registry: AccessRegistry,
    blacklist: Map<Address, BlacklistEntry>,
    authority: Address,
    accounts: Seq<Address>,
    blacklisted: bool,
    now: i64,
)
    requires
        registry.owner == authority,
        !registry.spec_any_special(accounts),
    ensures
        apply_each(registry, blacklist, authority, accounts, blacklisted, now) == applied(
            registry,
            blacklist,
            accounts,
            blacklisted,
            now,
        ),
    decreases accounts.len(),
{
    if accounts.len() == 0 {
        assert(with_batch(blacklist, accounts, now) =~= blacklist);
        assert(without_batch(blacklist, accounts) =~= blacklist);
    } else {
        let front = accounts.drop_last();
        let last = accounts.last();
        assert(!registry.spec_any_special(front)) by {
            if registry.spec_any_special(front) {
                let i = choose|i: int|
                    0 <= i < front.len() && #[trigger] registry.spec_is_special_address(front[i]);
                assert(registry.spec_is_special_address(accounts[i]));
            }
        }
        assert(!registry.spec_is_special_address(last)) by {
            assert(accounts[accounts.len() - 1] == last);
        }
        lemma_apply_each(registry, blacklist, authority, front, blacklisted, now);
        lemma_no_duplicates_last(accounts);
        assert(all_absent(blacklist, accounts) <==> (all_absent(blacklist, front)
            && !blacklist.dom().contains(last))) by {
            if all_absent(blacklist, accounts) {
                assert forall|i: int| 0 <= i < front.len() implies !blacklist.dom().contains(
                    #[trigger] front[i],
                ) by {
                    assert(front[i] == accounts[i]);
                }
                assert(accounts[accounts.len() - 1] == last);
            }
            if all_absent(blacklist, front) && !blacklist.dom().contains(last) {
                assert forall|i: int| 0 <= i < accounts.len() implies !blacklist.dom().contains(
                    #[trigger] accounts[i],
                ) by {
                    if i < front.len() {
                        assert(front[i] == accounts[i]);
                    }
                }
            }
        }
        assert(all_present(blacklist, accounts) <==> (all_present(blacklist, front)
            && blacklist.dom().contains(last))) by {
            if all_present(blacklist, accounts) {
                assert forall|i: int| 0 <= i < front.len() implies blacklist.dom().contains(
                    #[trigger] front[i],
                ) by {
                    assert(front[i] == accounts[i]);
                }
                assert(accounts[accounts.len() - 1] == last);
            }
            if all_present(blacklist, front) && blacklist.dom().contains(last) {
                assert forall|i: int| 0 <= i < accounts.len() implies blacklist.dom().contains(
                    #[trigger] accounts[i],
                ) by {
                    if i < front.len() {
                        assert(front[i] == accounts[i]);
                    }
                }
            }
        }
        match applied(registry, blacklist, front, blacklisted, now) {
            Ok((r, m)) => {
                if blacklisted {
                    assert(m.dom().contains(last) <==> (blacklist.dom().contains(last)
                        || front.contains(last)));
                    if !m.dom().contains(last) {
                        assert(m.insert(last, fresh_entry(last, now)) =~= with_batch(
                            blacklist,
                            accounts,
                            now,
                        ));
                    }
                } else {
                    assert(m.dom().contains(last) <==> (blacklist.dom().contains(last)
                        && !front.contains(last)));
                    if m.dom().contains(last) {
                        assert(m.remove(last) =~= without_batch(blacklist, accounts));
                    }
                }
            },
            Err(e) => {},
        }
    }
}

/// Whether a batch can be applied: its addresses differ from each other,
/// and each is in the state from which the change starts.
fn ready(blacklist: &BlacklistStore, accounts: &Vec<Address>, blacklisted: bool) -> (r: bool)
    requires
        blacklist.wf(),
    ensures
        r == (accounts@.no_duplicates() && if blacklisted {
            all_absent(blacklist@, accounts@)
        } else {
            all_present(blacklist@, accounts@)
        }),
{
    let mut i: usize = 0;
    while i < accounts.len()
        invariant
            blacklist.wf(),
            i <= accounts@.len(),
            forall|k: int|
                0 <= k < i ==> blacklist@.dom().contains(#[trigger] accounts@[k]) != blacklisted,
            forall|j: int, k: int| 0 <= j < k < i ==> accounts@[j] != accounts@[k],
        decreases accounts@.len() - i,
    {
        if blacklist.is_blacklisted(&accounts[i]) == blacklisted {
            return false;
        }
        let mut j: usize = 0;
        while j < i
            invariant
                j <= i < accounts@.len(),
                forall|k: int| 0 <= k < j ==> accounts@[k] != accounts@[i as int],
            decreases i - j,
        {
            if accounts[j] == accounts[i] {
                return false;
            }
            j += 1;
        }
        i += 1;
    }
    true
}

/// `len` as a count of entries, stopping at the largest count.
fn clamp_count(len: usize) -> (r: u32)
    ensures
        r as nat == if len > u32::MAX {
            u32::MAX as nat
        } else {
            len as nat
        },
{
    if len > 0xffff_ffff {
        u32::MAX
    } else {
        len as u32
    }
}

/// Changes the status of each of `accounts`, all or none, and lets the
/// registry's count follow; no question is asked about who calls or which
/// addresses are named.
///
/// On failure the registry and the blacklist stay as they were.
pub fn apply(
    registry: &mut AccessRegistry,
    blacklist: &mut BlacklistStore,
    accounts: &Vec<Address>,
    blacklisted: bool,
    now: i64,
) -> (result: Result<(), AccessRegistryError>)
    requires
        old(blacklist).wf(),
    ensures
        final(blacklist).wf(),
        match applied(*old(registry), old(blacklist)@, accounts@, blacklisted, now) {
            Ok((after, entries)) => result == Ok::<(), AccessRegistryError>(())
                && *final(registry) == after && final(blacklist)@ == entries,
            Err(e) => result == Err::<(), AccessRegistryError>(e) && *final(registry) == *old(
                registry,
            ) && final(blacklist)@ == old(blacklist)@,
        },
{
    if !ready(blacklist, accounts, blacklisted) {
        if blacklisted {
            return Err(AccessRegistryError::AlreadyBlacklisted);
        } else {
            return Err(AccessRegistryError::NotBlacklisted);
        }
    }
    let mut i: usize = 0;
    while i < accounts.len()
        invariant
            blacklist.wf(),
            i <= accounts@.len(),
            accounts@.no_duplicates(),
            blacklisted ==> all_absent(old(blacklist)@, accounts@),
            !blacklisted ==> all_present(old(blacklist)@, accounts@),
            blacklisted ==> blacklist@ == with_batch(old(blacklist)@, accounts@.take(i as int), now),
            !blacklisted ==> blacklist@ == without_batch(old(blacklist)@, accounts@.take(i as int)),
        decreases accounts@.len() - i,
    {
        let account = accounts[i];
        proof {
            let done = accounts@.take(i as int);
            let next = accounts@.take(i + 1);
            assert(next.drop_last() =~= done);
            assert(next.last() == account);
            lemma_no_duplicates_last(next);
            assert(!done.contains(account)) by {
                if done.contains(account) {
                    let j = choose|j: int| 0 <= j < done.len() && done[j] == account;
                    assert(accounts@[j] == accounts@[i as int]);
                }
            }
        }
        if blacklisted {
            let entry = BlacklistEntry { account, blacklisted: true, timestamp: now };
            let inserted = blacklist.insert(entry);
            proof {
                assert(inserted);
                assert(blacklist@ =~= with_batch(old(blacklist)@, accounts@.take(i + 1), now));
            }
        } else {
            let removed = blacklist.remove(&account);
            proof {
                assert(blacklist@ =~= without_batch(old(blacklist)@, accounts@.take(i + 1)));
            }
        }
        i += 1;
    }
    proof {
        assert(accounts@.take(accounts@.len() as int) =~= accounts@);
    }
    let count = clamp_count(accounts.len());
    if blacklisted {
        registry.blacklist_count = registry.blacklist_count.saturating_add(count);
    } else {
        registry.blacklist_count = registry.blacklist_count.saturating_sub(count);
    }
    Ok(())
}

/// Blacklists each of `accounts` (`blacklisted` is true) or takes each off
/// the blacklist (`blacklisted` is false), on behalf of `authority` and at
/// time `now`, all or none.
///
/// On success every address has changed its status and the registry's count
/// has followed; on failure the registry and the blacklist stay as they
/// were, and the error is that of the first change that could not be made.
pub fn handler(
    registry: &mut AccessRegistry,
    blacklist: &mut BlacklistStore,
    authority: &Address,
    accounts: Vec<Address>,
    blacklisted: bool,
    now: i64,
) -> (result: Result<(), AccessRegistryError>)
    requires
        old(blacklist).wf(),
    ensures
        final(blacklist).wf(),
        match outcome(*old(registry), old(blacklist)@, *authority, accounts@, blacklisted, now) {
            Ok((after, entries)) => result == Ok::<(), AccessRegistryError>(())
                && *final(registry) == after && final(blacklist)@ == entries,
            Err(e) => result == Err::<(), AccessRegistryError>(e) && *final(registry) == *old(
                registry,
            ) && final(blacklist)@ == old(blacklist)@,
        },
{
    if registry.owner != *authority {
        return Err(AccessRegistryError::Unauthorized);
    }
    if !valid_batch_len(accounts.len()) {
        return Err(AccessRegistryError::InvalidBatchSize);
    }
    if registry.any_special(&accounts) {
        return Err(AccessRegistryError::CannotBlacklistSpecialAddress);
    }
    proof {
        lemma_apply_each(*registry, blacklist@, *authority, accounts@, blacklisted, now);
    }
    apply(registry, blacklist, &accounts, blacklisted, now)
}

/// A batch of a length that is not admissible is refused for its length,
/// whatever it holds.
pub proof fn lemma_batch_size_refused(
    registry: AccessRegistry,
    blacklist: Map<Address, BlacklistEntry>,
    authority: Address,
    accounts: Seq<Address>,
    blacklisted: bool,
    now: i64,
)
    requires
        registry.owner == authority,
        accounts.len() == 0 || accounts.len() > MAX_BATCH_SIZE,
    ensures
        outcome(registry, blacklist, authority, accounts, blacklisted, now) == Err::<
            (AccessRegistry, Map<Address, BlacklistEntry>),
            AccessRegistryError,
        >(AccessRegistryError::InvalidBatchSize),
{
}

/// A batch of an admissible length is never refused for its length.
pub proof fn lemma_batch_size_accepted(
    registry: AccessRegistry,
    blacklist: Map<Address, BlacklistEntry>,
    authority: Address,
    accounts: Seq<Address>,
    blacklisted: bool,
    now: i64,
)
    requires
        1 <= accounts.len() <= MAX_BATCH_SIZE,
    ensures
        outcome(registry, blacklist, authority, accounts, blacklisted, now) != Err::<
            (AccessRegistry, Map<Address, BlacklistEntry>),
            AccessRegistryError,
        >(AccessRegistryError::InvalidBatchSize),
{
    if registry.owner == authority && !registry.spec_any_special(accounts) {
        lemma_apply_each(registry, blacklist, authority, accounts, blacklisted, now);
    }
}

/// A batch that names a special address is refused for that reason,
/// wherever in the batch the address stands and whatever status the owner
/// asks for.
pub proof fn lemma_batch_special_refused(
    registry: AccessRegistry,
    blacklist: Map<Address, BlacklistEntry>,
    authority: Address,
    accounts: Seq<Address>,
    blacklisted: bool,
    now: i64,
    at: int,
)
    requires
        registry.owner == authority,
        1 <= accounts.len() <= MAX_BATCH_SIZE,
        0 <= at < accounts.len(),
        registry.spec_is_special_address(accounts[at]),
    ensures
        outcome(registry, blacklist, authority, accounts, blacklisted, now) == Err::<
            (AccessRegistry, Map<Address, BlacklistEntry>),
            AccessRegistryError,
        >(AccessRegistryError::CannotBlacklistSpecialAddress),
{
}

/// Whoever calls and whatever the batch's length, a batch that names a
/// special address changes nothing.
pub proof fn lemma_batch_special_untouched(
    registry: AccessRegistry,
    blacklist: Map<Address, BlacklistEntry>,
    authority: Address,
    accounts: Seq<Address>,
    blacklisted: bool,
    now: i64,
    at: int,
)
    requires
        0 <= at < accounts.len(),
        registry.spec_is_special_address(accounts[at]),
    ensures
        outcome(registry, blacklist, authority, accounts, blacklisted, now) is Err,
{
}

/// A batch that passes the checks on caller, length and special addresses
/// comes to what `applied` says: it is all done or all refused.
pub proof fn lemma_batch_outcome(
    registry: AccessRegistry,
    blacklist: Map<Address, BlacklistEntry>,
    authority: Address,
    accounts: Seq<Address>,
    blacklisted: bool,
    now: i64,
)
    requires
        registry.owner == authority,
        1 <= accounts.len() <= MAX_BATCH_SIZE,
        !registry.spec_any_special(accounts),
    ensures
        outcome(registry, blacklist, authority, accounts, blacklisted, now) == applied(
            registry,
            blacklist,
            accounts,
            blacklisted,
            now,
        ),
{
    lemma_apply_each(registry, blacklist, authority, accounts, blacklisted, now);
}

/// A batch of one address comes to what the single change of that address
/// comes to.
pub proof fn lemma_batch_of_one(
    registry: AccessRegistry,
    blacklist: Map<Address, BlacklistEntry>,
    authority: Address,
    account: Address,
    blacklisted: bool,
    now: i64,
)
    ensures
        outcome(registry, blacklist, authority, seq![account], blacklisted, now)
            == set_blacklisted::outcome(registry, blacklist, authority, account, blacklisted, now),
{
    let accounts = seq![account];
    assert(accounts.drop_last().len() == 0);
    assert(accounts.last() == account);
    assert(apply_each(registry, blacklist, authority, accounts.drop_last(), blacklisted, now) == Ok::<
        (AccessRegistry, Map<Address, BlacklistEntry>),
        AccessRegistryError,
    >((registry, blacklist)));
    if registry.spec_any_special(accounts) {
        let i = choose|i: int|
            0 <= i < accounts.len() && #[trigger] registry.spec_is_special_address(accounts[i]);
        assert(accounts[i] == account);
    }
    if registry.spec_is_special_address(account) {
        assert(registry.spec_is_special_address(accounts[0]));
    }
}

/// The first change that cannot be made ends the run, and its error is the
/// run's: if the changes before place `at` succeed and the change at `at`
/// fails, the whole run fails as that change does, whatever follows.
pub proof fn lemma_first_failure_ends_run(
    registry: AccessRegistry,
    blacklist: Map<Address, BlacklistEntry>,
    authority: Address,
    accounts: Seq<Address>,
    blacklisted: bool,
    now: i64,
    at: int,
)
    requires
        0 <= at < accounts.len(),
        apply_each(registry, blacklist, authority, accounts.take(at), blacklisted, now) is Ok,
        ({
            let (r, m) = apply_each(
                registry,
                blacklist,
                authority,
                accounts.take(at),
                blacklisted,
                now,
            )->Ok_0;
            set_blacklisted::outcome(r, m, authority, accounts[at], blacklisted, now) is Err
        }),
    ensures
        ({
            let (r, m) = apply_each(
                registry,
                blacklist,
                authority,
                accounts.take(at),
                blacklisted,
                now,
            )->Ok_0;
            apply_each(registry, blacklist, authority, accounts, blacklisted, now) == Err::<
                (AccessRegistry, Map<Address, BlacklistEntry>),
                AccessRegistryError,
            >(set_blacklisted::outcome(r, m, authority, accounts[at], blacklisted, now)->Err_0)
        }),
    decreases accounts.len(),
{
    let front = accounts.drop_last();
    if at == accounts.len() - 1 {
        assert(accounts.take(at) =~= front);
    } else {
        assert(front.take(at) =~= accounts.take(at));
        lemma_first_failure_ends_run(registry, blacklist, authority, front, blacklisted, now, at);
    }
}

/// A run of changes that succeeds keeps the registry well formed and the
/// count equal to the number of entries, as long as the count can still
/// grow by the length of the run.
pub proof fn lemma_apply_each_keeps_invariant(
    registry: AccessRegistry,
    blacklist: Map<Address, BlacklistEntry>,
    authority: Address,
    accounts: Seq<Address>,
    blacklisted: bool,
    now: i64,
)
    requires
        apply_each(registry, blacklist, authority, accounts, blacklisted, now) is Ok,
    ensures
        ({
            let (after, entries) = apply_each(
                registry,
                blacklist,
                authority,
                accounts,
                blacklisted,
                now,
            )->Ok_0;
            &&& after == with_count(registry, after.blacklist_count)
            &&& registry.well_formed() ==> after.well_formed()
            &&& count_matches(registry, blacklist) && (blacklisted ==> registry.blacklist_count
                + accounts.len() <= u32::MAX) ==> count_matches(after, entries) && (blacklisted
                ==> after.blacklist_count == registry.blacklist_count + accounts.len())
        }),
    decreases accounts.len(),
{
    if accounts.len() > 0 {
        let front = accounts.drop_last();
        let (r, m) = apply_each(registry, blacklist, authority, front, blacklisted, now)->Ok_0;
        lemma_apply_each_keeps_invariant(registry, blacklist, authority, front, blacklisted, now);
        set_blacklisted::lemma_change_keeps_invariant(
            r,
            m,
            authority,
            accounts.last(),
            blacklisted,
            now,
        );
    }
}

/// A batch that succeeds keeps the registry well formed and the count equal
/// to the number of entries, as long as the count can still grow by the
/// length of the batch.
pub proof fn lemma_batch_keeps_invariant(
    registry: AccessRegistry,
    blacklist: Map<Address, BlacklistEntry>,
    authority: Address,
    accounts: Seq<Address>,
    blacklisted: bool,
    now: i64,
)
    requires
        outcome(registry, blacklist, authority, accounts, blacklisted, now) is Ok,
    ensures
        ({
            let (after, entries) = outcome(
                registry,
                blacklist,
                authority,
                accounts,
                blacklisted,
                now,
            )->Ok_0;
            &&& registry.well_formed() ==> after.well_formed()
            &&& count_matches(registry, blacklist) && (blacklisted ==> registry.blacklist_count
                + accounts.len() <= u32::MAX) ==> count_matches(after, entries)
        }),
{
    lemma_apply_each_keeps_invariant(registry, blacklist, authority, accounts, blacklisted, now);
}

} // verus!

use vstd::prelude::*;
use crate::address::Address;
use crate::state::BlacklistEntry;

verus! {

/// `entries` holds a record for `account`.
spec fn has_entry(entries: Seq<BlacklistEntry>, account: Address) -> bool {
    exists|i: int| 0 <= i < entries.len() && #[trigger] entries[i].account == account
}

/// The place of a record for `account` in `entries`, where there is one.
spec fn entry_index(entries: Seq<BlacklistEntry>, account: Address) -> int {
    choose|i: int| 0 <= i < entries.len() && #[trigger] entries[i].account == account
}

/// No two records of `entries` are about the same address, and every record
/// has its flag up.
spec fn entries_valid(entries: Seq<BlacklistEntry>) -> bool {
    &&& forall|i: int, j: int|
        0 <= i < j < entries.len() ==> #[trigger] entries[i].account != #[trigger] entries[j].account
    &&& forall|i: int| 0 <= i < entries.len() ==> #[trigger] entries[i].blacklisted
}

/// The records of `entries` by the address that each is about.
spec fn entries_map(entries: Seq<BlacklistEntry>) -> Map<Address, BlacklistEntry> {
    Map::new(
        |a: Address| has_entry(entries, a),
        |a: Address| entries[entry_index(entries, a)],
    )
}

/// In a valid list the record at place `i` is the one that the map holds for
/// its address.
proof fn lemma_entry_at(entries: Seq<BlacklistEntry>, i: int)
    requires
        entries_valid(entries),
        0 <= i < entries.len(),
    ensures
        has_entry(entries, entries[i].account),
        entry_index(entries, entries[i].account) == i,
        entries_map(entries).dom().contains(entries[i].account),
        entries_map(entries)[entries[i].account] == entries[i],
{
    let a = entries[i].account;
    assert(has_entry(entries, a));
    let j = entry_index(entries, a);
    assert(0 <= j < entries.len() && entries[j].account == a);
    if j < i {
        assert(entries[j].account != entries[i].account);
    } else if i < j {
        assert(entries[i].account != entries[j].account);
    }
}

/// The map of a valid list is finite, has one key for each record, and holds
/// under each key a live record about that key.
proof fn lemma_entries_map(entries: Seq<BlacklistEntry>)
    requires
        entries_valid(entries),
    ensures
        entries_map(entries).dom().finite(),
        entries_map(entries).dom().len() == entries.len(),
        forall|a: Address| #[trigger]
            entries_map(entries).dom().contains(a) ==> entries_map(entries)[a].account == a
                && entries_map(entries)[a].blacklisted,
{
    let accounts = entries.map_values(|e: BlacklistEntry| e.account);
    assert(accounts.no_duplicates()) by {
        assert forall|i: int, j: int|
            0 <= i < accounts.len() && 0 <= j < accounts.len() && i != j implies accounts[i]
            != accounts[j] by {
            if i < j {
                assert(entries[i].account != entries[j].account);
            } else {
                assert(entries[j].account != entries[i].account);
            }
        }
    }
    assert(entries_map(entries).dom() =~= accounts.to_set()) by {
        assert forall|a: Address| entries_map(entries).dom().contains(a) implies accounts.to_set().contains(
            a,
        ) by {
            let i = entry_index(entries, a);
            assert(accounts[i] == a);
        }
        assert forall|a: Address| accounts.to_set().contains(a) implies entries_map(
            entries,
        ).dom().contains(a) by {
            let i = choose|i: int| 0 <= i < accounts.len() && accounts[i] == a;
            assert(entries[i].account == a);
        }
    }
    vstd::seq_lib::seq_to_set_is_finite(accounts);
    accounts.unique_seq_to_set();
    assert forall|a: Address| #[trigger]
        entries_map(entries).dom().contains(a) implies entries_map(entries)[a].account == a
        && entries_map(entries)[a].blacklisted by {
        let i = entry_index(entries, a);
        assert(entries[i].account == a);
    }
}

/// Adding a record about a new address adds it to the map.
proof fn lemma_entries_push(entries: Seq<BlacklistEntry>, entry: BlacklistEntry)
    requires
        entries_valid(entries),
        entry.blacklisted,
        !has_entry(entries, entry.account),
    ensures
        entries_valid(entries.push(entry)),
        entries_map(entries.push(entry)) == entries_map(entries).insert(entry.account, entry),
{
    let after = entries.push(entry);
    assert(entries_valid(after)) by {
        assert forall|i: int, j: int| 0 <= i < j < after.len() implies #[trigger] after[i].account
            != #[trigger] after[j].account by {
            if j < entries.len() {
                assert(entries[i].account != entries[j].account);
            } else {
                assert(entries[i].account != entry.account);
            }
        }
    }
    assert forall|a: Address|
        entries_map(after).dom().contains(a) <==> entries_map(entries).insert(
            entry.account,
            entry,
        ).dom().contains(a) by {
        if has_entry(after, a) {
            let i = entry_index(after, a);
            if i < entries.len() {
                assert(entries[i].account == a);
            }
        }
        if has_entry(entries, a) {
            let i = entry_index(entries, a);
            assert(after[i].account == a);
        }
        if a == entry.account {
            assert(after[entries.len() as int].account == a);
        }
    }
    assert forall|a: Address| entries_map(after).dom().contains(a) implies entries_map(after)[a]
        == entries_map(entries).insert(entry.account, entry)[a] by {
        if a == entry.account {
            lemma_entry_at(after, entries.len() as int);
        } else {
            let i = entry_index(after, a);
            assert(i < entries.len());
            assert(entries[i].account == a);
            lemma_entry_at(entries, i);
            lemma_entry_at(after, i);
        }
    }
    assert(entries_map(after) =~= entries_map(entries).insert(entry.account, entry));
}

/// Taking the record at place `at` out of a valid list takes its address out
/// of the map.
proof fn lemma_entries_remove(entries: Seq<BlacklistEntry>, at: int)
    requires
        entries_valid(entries),
        0 <= at < entries.len(),
    ensures
        entries_valid(entries.remove(at)),
        entries_map(entries.remove(at)) == entries_map(entries).remove(entries[at].account),
{
    let after = entries.remove(at);
    let gone = entries[at].account;
    assert forall|k: int| 0 <= k < after.len() implies #[trigger] after[k] == entries[if k < at {
        k
    } else {
        k + 1
    }] by {}
    assert(entries_valid(after)) by {
        assert forall|i: int, j: int| 0 <= i < j < after.len() implies #[trigger] after[i].account
            != #[trigger] after[j].account by {
            let oi = if i < at { i } else { i + 1 };
            let oj = if j < at { j } else { j + 1 };
            assert(after[i] == entries[oi]);
            assert(after[j] == entries[oj]);
            assert(entries[oi].account != entries[oj].account);
        }
        assert forall|i: int| 0 <= i < after.len() implies #[trigger] after[i].blacklisted by {
            let oi = if i < at { i } else { i + 1 };
            assert(after[i] == entries[oi]);
            assert(entries[oi].blacklisted);
        }
    }
    assert forall|a: Address|
        entries_map(after).dom().contains(a) <==> entries_map(entries).remove(gone).dom().contains(
            a,
        ) by {
        if has_entry(after, a) {
            let i = entry_index(after, a);
            let oi = if i < at { i } else { i + 1 };
            assert(after[i] == entries[oi]);
            assert(entries[oi].account == a);
            if a == gone {
                if oi < at {
                    assert(entries[oi].account != entries[at].account);
                } else {
                    assert(entries[at].account != entries[oi].account);
                }
            }
        }
        if has_entry(entries, a) && a != gone {
            let oi = entry_index(entries, a);
            let i = if oi < at { oi } else { oi - 1 };
            assert(after[i] == entries[oi]);
            assert(after[i].account == a);
        }
    }
    assert forall|a: Address| entries_map(after).dom().contains(a) implies entries_map(after)[a]
        == entries_map(entries).remove(gone)[a] by {
        let i = entry_index(after, a);
        let oi = if i < at { i } else { i + 1 };
        assert(after[i] == entries[oi]);
        lemma_entry_at(after, i);
        lemma_entry_at(entries, oi);
    }
    assert(entries_map(after) =~= entries_map(entries).remove(gone));
}

/// The blacklist: the live records, at most one for an address.
///
/// Its view is the map from each blacklisted address to its record. An
/// address without a record is not blacklisted, whether it never had one or
/// had one taken out.
#[derive(Debug)]
pub struct BlacklistStore {
    entries: Vec<BlacklistEntry>,
}

impl View for BlacklistStore {
    type V = Map<Address, BlacklistEntry>;

    closed spec fn view(&self) -> Map<Address, BlacklistEntry> {
        entries_map(self.entries@)
    }
}

impl BlacklistStore {
    /// What holds of the records as they are kept: no two are about the same
    /// address, and every one has its flag up.
    pub closed spec fn inv(&self) -> bool {
        entries_valid(self.entries@)
    }

    /// The store's invariant: it holds finitely many records, each under
    /// the address that it is about and with its flag up.
    pub open spec fn wf(&self) -> bool {
        &&& self.inv()
        &&& self@.dom().finite()
        &&& forall|a: Address| #[trigger]
            self@.dom().contains(a) ==> self@[a].account == a && self@[a].blacklisted
    }

    /// `account` is blacklisted.
    pub open spec fn spec_is_blacklisted(&self, account: Address) -> bool {
        self@.dom().contains(account)
    }

    /// The number of blacklisted addresses.
    pub open spec fn spec_len(&self) -> nat {
        self@.dom().len()
    }

    /// The place of the record for `account`, if there is one.
    fn find(&self, account: &Address) -> (r: Option<usize>)
        requires
            self.wf(),
        ensures
            match r {
                Some(i) => i < self.entries@.len() && self.entries@[i as int].account == *account
                    && self@.dom().contains(*account) && self@[*account]
                    == self.entries@[i as int],
                None => !self@.dom().contains(*account),
            },
    {
        let mut i: usize = 0;
        while i < self.entries.len()
            invariant
                self.wf(),
                i <= self.entries@.len(),
                forall|j: int| 0 <= j < i ==> (#[trigger] self.entries@[j]).account != *account,
            decreases self.entries@.len() - i,
        {
            if self.entries[i].account == *account {
                proof {
                    lemma_entry_at(self.entries@, i as int);
                }
                return Some(i);
            }
            i += 1;
        }
        proof {
            if has_entry(self.entries@, *account) {
                let j = entry_index(self.entries@, *account);
                assert(self.entries@[j].account == *account);
            }
        }
        None
    }

    /// An empty blacklist.
    pub fn new() -> (r: BlacklistStore)
        ensures
            r.wf(),
            r@ == Map::<Address, BlacklistEntry>::empty(),
    {
        let r = BlacklistStore { entries: Vec::new() };
        proof {
            assert(r@ =~= Map::<Address, BlacklistEntry>::empty());
            lemma_entries_map(r.entries@);
        }
        r
    }

    /// The number of blacklisted addresses.
    pub fn len(&self) -> (r: usize)
        requires
            self.wf(),
        ensures
            r == self.spec_len(),
    {
        proof {
            lemma_entries_map(self.entries@);
        }
        self.entries.len()
    }

    /// The records, one for each blacklisted address, in no order that a
    /// caller may rely on.
    pub fn entries(&self) -> (r: Vec<BlacklistEntry>)
        requires
            self.wf(),
        ensures
            r@.len() == self.spec_len(),
            forall|i: int|
                0 <= i < r@.len() ==> self@.dom().contains(#[trigger] r@[i].account)
                    && self@[r@[i].account] == r@[i],
            forall|i: int, j: int|
                0 <= i < j < r@.len() ==> #[trigger] r@[i].account != #[trigger] r@[j].account,
    {
        let mut r: Vec<BlacklistEntry> = Vec::new();
        let mut i: usize = 0;
        while i < self.entries.len()
            invariant
                i <= self.entries@.len(),
                r@ == self.entries@.take(i as int),
            decreases self.entries@.len() - i,
        {
            r.push(self.entries[i]);
            proof {
                assert(r@ =~= self.entries@.take(i + 1));
            }
            i += 1;
        }
        proof {
            assert(r@ =~= self.entries@);
            lemma_entries_map(self.entries@);
            assert forall|k: int| 0 <= k < r@.len() implies self@.dom().contains(
                #[trigger] r@[k].account,
            ) && self@[r@[k].account] == r@[k] by {
                lemma_entry_at(self.entries@, k);
            }
        }
        r
    }

    /// Whether `account` is blacklisted.
    pub fn is_blacklisted(&self, account: &Address) -> (r: bool)
        requires
            self.wf(),
        ensures
            r == self.spec_is_blacklisted(*account),
    {
        self.find(account).is_some()
    }

    /// The record of `account`, if it is blacklisted.
    pub fn get(&self, account: &Address) -> (r: Option<BlacklistEntry>)
        requires
            self.wf(),
        ensures
            r == (if self@.dom().contains(*account) {
                Some(self@[*account])
            } else {
                None
            }),
    {
        match self.find(account) {
            Some(i) => Some(self.entries[i]),
            None => None,
        }
    }

    /// Puts `entry` in, if its flag is up and its address has no record yet;
    /// says whether it did.
    pub fn insert(&mut self, entry: BlacklistEntry) -> (inserted: bool)
        requires
            old(self).wf(),
        ensures
            final(self).wf(),
            inserted == (entry.blacklisted && !old(self)@.dom().contains(entry.account)),
            inserted ==> final(self)@ == old(self)@.insert(entry.account, entry),
            !inserted ==> final(self)@ == old(self)@,
    {
        if !entry.blacklisted {
            return false;
        }
        match self.find(&entry.account) {
            Some(_) => false,
            None => {
                proof {
                    lemma_entries_push(self.entries@, entry);
                }
                self.entries.push(entry);
                proof {
                    lemma_entries_map(self.entries@);
                }
                true
            },
        }
    }

    /// Takes the record of `account` out and returns it, if there is one.
    pub fn remove(&mut self, account: &Address) -> (removed: Option<BlacklistEntry>)
        requires
            old(self).wf(),
        ensures
            final(self).wf(),
            removed == (if old(self)@.dom().contains(*account) {
                Some(old(self)@[*account])
            } else {
                None
            }),
            final(self)@ == old(self)@.remove(*account),
    {
        match self.find(account) {
            Some(i) => {
                proof {
                    lemma_entries_remove(self.entries@, i as int);
                }
                let entry = self.entries.remove(i);
                proof {
                    lemma_entries_map(self.entries@);
                }
                Some(entry)
            },
            None => {
                proof {
                    assert(self@.remove(*account) =~= self@);
                }
                None
            },
        }
    }
}

} // verus!

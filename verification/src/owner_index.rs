//! The owner index: for each account, the ordered set of token identifiers it
//! currently holds. This is a derived index over the token store; the two are
//! kept consistent by the transfer engine, which only ever mutates them in
//! paired steps. Insertion order within an account's set is preserved and is
//! the enumeration order for supply and listing queries.

use vstd::prelude::*;
use crate::metadata::{AccountId, TokenId};

verus! {

/// One account's entry: the account name and the ordered identifiers it holds.
pub struct OwnerEntry {
    pub account: AccountId,
    pub token_ids: Vec<TokenId>,
}

/// The whole index. An account appears in at most one entry; an entry's list
/// holds no duplicates.
pub struct OwnerIndex {
    pub entries: Vec<OwnerEntry>,
}

/// No two entries name the same account.
pub open spec fn distinct_accounts(s: Seq<OwnerEntry>) -> bool {
    forall|i: int, j: int|
        0 <= i < s.len() && 0 <= j < s.len() && i != j ==> (#[trigger] s[i].account@)
            != (#[trigger] s[j].account@)
}

/// Some entry names account `a`.
pub open spec fn has_account(s: Seq<OwnerEntry>, a: Seq<char>) -> bool {
    exists|i: int| 0 <= i < s.len() && (#[trigger] s[i].account@) == a
}

/// The position of the entry naming `a` (meaningful only under `has_account`).
pub open spec fn account_index(s: Seq<OwnerEntry>, a: Seq<char>) -> int {
    choose|i: int| 0 <= i < s.len() && (#[trigger] s[i].account@) == a
}

/// The ordered identifiers held by `a`: the entry's list, or empty when the
/// account has no entry. Unknown accounts hold nothing, not an error.
pub open spec fn ids_of(s: Seq<OwnerEntry>, a: Seq<char>) -> Seq<TokenId> {
    if has_account(s, a) {
        s[account_index(s, a)].token_ids@
    } else {
        Seq::<TokenId>::empty()
    }
}

/// `s` with its first occurrence of `id` removed; `s` itself when absent.
pub open spec fn remove_first(s: Seq<TokenId>, id: TokenId) -> Seq<TokenId> {
    if s.contains(id) {
        s.remove(s.index_of(id))
    } else {
        s
    }
}

/// Under distinctness, the entry at `i` is the one `account_index` picks.
pub proof fn lemma_entry_index(s: Seq<OwnerEntry>, i: int)
    requires
        distinct_accounts(s),
        0 <= i < s.len(),
    ensures
        has_account(s, s[i].account@),
        account_index(s, s[i].account@) == i,
        ids_of(s, s[i].account@) == s[i].token_ids@,
{
    assert(has_account(s, s[i].account@));
    let k = account_index(s, s[i].account@);
    assert(0 <= k < s.len() && s[k].account@ == s[i].account@);
    assert(k == i);
}

/// An account named by no entry holds nothing.
pub proof fn lemma_no_entry(s: Seq<OwnerEntry>, a: Seq<char>)
    requires
        forall|i: int| 0 <= i < s.len() ==> (#[trigger] s[i].account@) != a,
    ensures
        !has_account(s, a),
        ids_of(s, a) == Seq::<TokenId>::empty(),
{
}

/// Replacing entry `i` by one for the same account leaves every other
/// account's holdings unchanged.
pub proof fn lemma_update_other(s: Seq<OwnerEntry>, i: int, e: OwnerEntry, b: Seq<char>)
    requires
        distinct_accounts(s),
        0 <= i < s.len(),
        e.account@ == s[i].account@,
        b != s[i].account@,
    ensures
        ids_of(s.update(i, e), b) == ids_of(s, b),
{
    let s2 = s.update(i, e);
    assert(forall|k: int|
        0 <= k < s.len() ==> (#[trigger] s2[k].account@) == s[k].account@);
    if has_account(s, b) {
        let k = account_index(s, b);
        assert(0 <= k < s.len() && s[k].account@ == b);
        assert(k != i);
        assert(s2[k] == s[k]);
        assert(has_account(s2, b));
        let k2 = account_index(s2, b);
        assert(0 <= k2 < s2.len() && s2[k2].account@ == b);
        assert(k2 == k);
    } else {
        assert(forall|k: int| 0 <= k < s2.len() ==> (#[trigger] s2[k].account@) != b);
        lemma_no_entry(s2, b);
    }
}

/// Appending an entry for a fresh account leaves every other account's
/// holdings unchanged.
pub proof fn lemma_push_other(s: Seq<OwnerEntry>, e: OwnerEntry, b: Seq<char>)
    requires
        distinct_accounts(s),
        b != e.account@,
    ensures
        ids_of(s.push(e), b) == ids_of(s, b),
{
    let s2 = s.push(e);
    assert(forall|k: int|
        0 <= k < s.len() ==> (#[trigger] s2[k].account@) == s[k].account@);
    if has_account(s, b) {
        let k = account_index(s, b);
        assert(0 <= k < s.len() && s[k].account@ == b);
        assert(s2[k] == s[k]);
        assert(has_account(s2, b));
        let k2 = account_index(s2, b);
        assert(0 <= k2 < s2.len() && s2[k2].account@ == b);
        assert(k2 < s.len());
        assert(k2 == k);
    } else {
        assert(forall|k: int| 0 <= k < s2.len() ==> (#[trigger] s2[k].account@) != b);
        lemma_no_entry(s2, b);
    }
}

/// Finds the position of `id` in a list of identifiers.
fn position_of(ids: &Vec<TokenId>, id: TokenId) -> (r: Option<usize>)
    ensures
        match r {
            Some(k) => (k as int) < ids@.len() && ids@[k as int] == id && forall|j: int|
                0 <= j < k ==> ids@[j] != id,
            None => !ids@.contains(id),
        },
{
    let mut k: usize = 0;
    while k < ids.len()
        invariant
            k <= ids@.len(),
            forall|j: int| 0 <= j < k ==> ids@[j] != id,
        decreases ids@.len() - k,
    {
        if ids[k] == id {
            return Some(k);
        }
        k += 1;
    }
    None
}

impl OwnerIndex {
    pub open spec fn wf(self) -> bool {
        &&& distinct_accounts(self.entries@)
        &&& forall|i: int|
            0 <= i < self.entries@.len() ==> (#[trigger] self.entries@[i].token_ids@).no_duplicates()
    }

    pub fn empty() -> (r: Self)
        ensures
            r.wf(),
            r.entries@ == Seq::<OwnerEntry>::empty(),
            forall|b: Seq<char>| ids_of(r.entries@, b) == Seq::<TokenId>::empty(),
    {
        let r = OwnerIndex { entries: Vec::new() };
        proof {
            assert forall|b: Seq<char>| ids_of(r.entries@, b) == Seq::<TokenId>::empty() by {
                lemma_no_entry(r.entries@, b);
            }
        }
        r
    }

    /// Finds the position of the entry naming `account`.
    fn find_entry(&self, account: &AccountId) -> (r: Option<usize>)
        ensures
            match r {
                Some(i) => (i as int) < self.entries@.len() && self.entries@[i as int].account@
                    == account@,
                None => !has_account(self.entries@, account@),
            },
    {
        let mut i: usize = 0;
        while i < self.entries.len()
            invariant
                i <= self.entries@.len(),
                forall|j: int| 0 <= j < i ==> (#[trigger] self.entries@[j].account@) != account@,
            decreases self.entries@.len() - i,
        {
            if self.entries[i].account == *account {
                return Some(i);
            }
            i += 1;
        }
        proof {
            lemma_no_entry(self.entries@, account@);
        }
        None
    }

    /// Inserts `id` into `account`'s set; idempotent if already present.
    pub fn add_token(&mut self, account: &AccountId, id: TokenId)
        requires
            old(self).wf(),
        ensures
            final(self).wf(),
            ids_of(final(self).entries@, account@) == if ids_of(
                old(self).entries@,
                account@,
            ).contains(id) {
                ids_of(old(self).entries@, account@)
            } else {
                ids_of(old(self).entries@, account@).push(id)
            },
            forall|b: Seq<char>|
                b != account@ ==> ids_of(final(self).entries@, b) == ids_of(old(self).entries@, b),
    {
        let ghost s0 = self.entries@;
        match self.find_entry(account) {
            Some(i) => {
                proof {
                    lemma_entry_index(s0, i as int);
                }
                let mut e = self.entries.remove(i);
                let had = position_of(&e.token_ids, id);
                match had {
                    Some(_) => {
                        proof {
                            assert(e.token_ids@.contains(id));
                        }
                    },
                    None => {
                        e.token_ids.push(id);
                    },
                }
                self.entries.insert(i, e);
                proof {
                    let s2 = self.entries@;
                    assert(s2 =~= s0.update(i as int, s2[i as int]));
                    assert(s2[i as int].account@ == account@);
                    assert(forall|k: int| 0 <= k < s2.len() && k != i ==> s2[k] == s0[k]);
                    assert(distinct_accounts(s2));
                    assert(final(self).wf());
                    lemma_entry_index(s2, i as int);
                    assert forall|b: Seq<char>| b != account@ implies ids_of(s2, b) == ids_of(
                        s0,
                        b,
                    ) by {
                        lemma_update_other(s0, i as int, s2[i as int], b);
                    }
                }
            },
            None => {
                proof {
                    lemma_no_entry_from_not_has(s0, account@);
                }
                let mut ids: Vec<TokenId> = Vec::new();
                ids.push(id);
                let e = OwnerEntry { account: account.clone(), token_ids: ids };
                self.entries.push(e);
                proof {
                    let s2 = self.entries@;
                    assert(s2 == s0.push(e));
                    assert(forall|k: int| 0 <= k < s0.len() ==> s2[k] == s0[k]);
                    assert(s2[s0.len() as int].account@ == account@);
                    assert(distinct_accounts(s2));
                    assert(s2[s0.len() as int].token_ids@ =~= Seq::<TokenId>::empty().push(id));
                    assert(final(self).wf());
                    lemma_entry_index(s2, s0.len() as int);
                    assert forall|b: Seq<char>| b != account@ implies ids_of(s2, b) == ids_of(
                        s0,
                        b,
                    ) by {
                        lemma_push_other(s0, e, b);
                    }
                }
            },
        }
    }

    /// Removes `id` from `account`'s set; a no-op if absent or if the account
    /// has no entry yet.
    pub fn remove_token(&mut self, account: &AccountId, id: TokenId)
        requires
            old(self).wf(),
        ensures
            final(self).wf(),
            ids_of(final(self).entries@, account@) == remove_first(
                ids_of(old(self).entries@, account@),
                id,
            ),
            forall|b: Seq<char>|
                b != account@ ==> ids_of(final(self).entries@, b) == ids_of(old(self).entries@, b),
    {
        let ghost s0 = self.entries@;
        match self.find_entry(account) {
            Some(i) => {
                proof {
                    lemma_entry_index(s0, i as int);
                }
                let mut e = self.entries.remove(i);
                let ghost ids0 = e.token_ids@;
                match position_of(&e.token_ids, id) {
                    Some(k) => {
                        e.token_ids.remove(k);
                        proof {
                            assert(ids0.contains(id));
                            assert(ids0.index_of(id) == k as int) by {
                                let j = ids0.index_of(id);
                                assert(0 <= j < ids0.len() && ids0[j] == id);
                                if j != k as int {
                                    assert(ids0[j] == ids0[k as int]);
                                    assert(!ids0.no_duplicates());
                                }
                            }
                            assert(e.token_ids@ == remove_first(ids0, id));
                            lemma_remove_no_duplicates(ids0, k as int);
                        }
                    },
                    None => {
                        proof {
                            assert(remove_first(ids0, id) == ids0);
                        }
                    },
                }
                self.entries.insert(i, e);
                proof {
                    let s2 = self.entries@;
                    assert(s2 =~= s0.update(i as int, s2[i as int]));
                    assert(s2[i as int].account@ == account@);
                    assert(distinct_accounts(s2));
                    assert(final(self).wf());
                    lemma_entry_index(s2, i as int);
                    assert forall|b: Seq<char>| b != account@ implies ids_of(s2, b) == ids_of(
                        s0,
                        b,
                    ) by {
                        lemma_update_other(s0, i as int, s2[i as int], b);
                    }
                }
            },
            None => {
                proof {
                    lemma_no_entry_from_not_has(s0, account@);
                    assert(remove_first(Seq::<TokenId>::empty(), id) == Seq::<TokenId>::empty());
                }
            },
        }
    }

    /// The ordered identifiers held by `account`, as a fresh vector.
    pub fn tokens_of(&self, account: &AccountId) -> (r: Vec<TokenId>)
        requires
            self.wf(),
        ensures
            r@ == ids_of(self.entries@, account@),
    {
        match self.find_entry(account) {
            Some(i) => {
                proof {
                    lemma_entry_index(self.entries@, i as int);
                }
                let ids = &self.entries[i].token_ids;
                let mut r: Vec<TokenId> = Vec::new();
                let mut k: usize = 0;
                while k < ids.len()
                    invariant
                        k <= ids@.len(),
                        r@ == ids@.take(k as int),
                    decreases ids@.len() - k,
                {
                    r.push(ids[k]);
                    k += 1;
                    proof {
                        assert(r@ =~= ids@.take(k as int));
                    }
                }
                proof {
                    assert(r@ =~= ids@);
                }
                r
            },
            None => {
                proof {
                    assert(ids_of(self.entries@, account@) =~= Seq::<TokenId>::empty());
                }
                Vec::new()
            },
        }
    }

    /// Cardinality of `account`'s set.
    pub fn count_of(&self, account: &AccountId) -> (r: usize)
        requires
            self.wf(),
        ensures
            r == ids_of(self.entries@, account@).len(),
    {
        match self.find_entry(account) {
            Some(i) => {
                proof {
                    lemma_entry_index(self.entries@, i as int);
                }
                self.entries[i].token_ids.len()
            },
            None => 0,
        }
    }
}

/// Bridges `find_entry`'s negative answer to `lemma_no_entry`'s premise.
proof fn lemma_no_entry_from_not_has(s: Seq<OwnerEntry>, a: Seq<char>)
    requires
        !has_account(s, a),
    ensures
        ids_of(s, a) == Seq::<TokenId>::empty(),
{
}

/// Under well-formedness, every account's holdings are duplicate-free.
pub proof fn lemma_ids_no_duplicates(idx: OwnerIndex, a: Seq<char>)
    requires
        idx.wf(),
    ensures
        ids_of(idx.entries@, a).no_duplicates(),
{
    if has_account(idx.entries@, a) {
        let k = account_index(idx.entries@, a);
        assert(0 <= k < idx.entries@.len() && idx.entries@[k].account@ == a);
        assert(idx.entries@[k].token_ids@.no_duplicates());
    }
}

/// What removing the first occurrence of `id` does to membership: `id`
/// leaves, every other element stays, and no duplicate appears.
pub proof fn lemma_remove_first_props(s: Seq<TokenId>, id: TokenId)
    requires
        s.no_duplicates(),
        s.contains(id),
    ensures
        remove_first(s, id).len() == s.len() - 1,
        !remove_first(s, id).contains(id),
        forall|t: TokenId| t != id ==> remove_first(s, id).contains(t) == s.contains(t),
        remove_first(s, id).no_duplicates(),
{
    let k = s.index_of(id);
    assert(0 <= k < s.len() && s[k] == id);
    let s2 = remove_first(s, id);
    assert(s2 == s.remove(k));
    lemma_remove_no_duplicates(s, k);
    assert forall|j: int| 0 <= j < s2.len() implies s2[j] == s[if j < k {
        j
    } else {
        j + 1
    }] by {}
    assert(!s2.contains(id)) by {
        if s2.contains(id) {
            let j = choose|j: int| 0 <= j < s2.len() && s2[j] == id;
            let j0 = if j < k {
                j
            } else {
                j + 1
            };
            assert(s[j0] == id && s[k] == id && j0 != k);
        }
    }
    assert forall|t: TokenId| t != id implies s2.contains(t) == s.contains(t) by {
        if s2.contains(t) {
            let j = choose|j: int| 0 <= j < s2.len() && s2[j] == t;
            let j0 = if j < k {
                j
            } else {
                j + 1
            };
            assert(s[j0] == t);
            assert(s.contains(t));
        }
        if s.contains(t) {
            let j0 = choose|j0: int| 0 <= j0 < s.len() && s[j0] == t;
            assert(j0 != k);
            let j = if j0 < k {
                j0
            } else {
                j0 - 1
            };
            assert(s2[j] == t);
            assert(s2.contains(t));
        }
    }
}

/// Removing an element keeps a duplicate-free list duplicate-free.
pub proof fn lemma_remove_no_duplicates(s: Seq<TokenId>, k: int)
    requires
        s.no_duplicates(),
        0 <= k < s.len(),
    ensures
        s.remove(k).no_duplicates(),
{
    let s2 = s.remove(k);
    assert forall|i: int, j: int| 0 <= i < s2.len() && 0 <= j < s2.len() && i != j implies s2[i]
        != s2[j] by {
        let i0 = if i < k { i } else { i + 1 };
        let j0 = if j < k { j } else { j + 1 };
        assert(s2[i] == s[i0]);
        assert(s2[j] == s[j0]);
    }
}

} // verus!

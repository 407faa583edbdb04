//! The allow-list gate: a set of accounts with voluntary protected status,
//! consulted by the transfer engine's mutation-eligibility policy. The list
//! is append-only through the public operations; insertion is idempotent and
//! enumeration follows insertion order.

use vstd::prelude::*;
use crate::metadata::AccountId;
use crate::Contract;

verus! {

/// An insertion-ordered set of accounts, with no duplicate members.
pub struct AccountSet {
    pub items: Vec<AccountId>,
}

/// The members, each as its sequence of characters, in insertion order.
pub open spec fn account_views(s: Seq<AccountId>) -> Seq<Seq<char>> {
    Seq::new(s.len(), |i: int| s[i]@)
}

/// What one registration does to the member list: nothing when the account
/// is already present, an append otherwise.
pub open spec fn register_views(s: Seq<Seq<char>>, a: Seq<char>) -> Seq<Seq<char>> {
    if s.contains(a) {
        s
    } else {
        s.push(a)
    }
}

impl AccountSet {
    pub open spec fn contains_view(self, a: Seq<char>) -> bool {
        exists|i: int| 0 <= i < self.items@.len() && (#[trigger] self.items@[i]@) == a
    }

    pub open spec fn views(self) -> Seq<Seq<char>> {
        account_views(self.items@)
    }

    pub open spec fn wf(self) -> bool {
        forall|i: int, j: int|
            0 <= i < self.items@.len() && 0 <= j < self.items@.len() && i != j ==> (
            #[trigger] self.items@[i]@) != (#[trigger] self.items@[j]@)
    }

    pub fn empty() -> (r: Self)
        ensures
            r.wf(),
            r.items@ == Seq::<AccountId>::empty(),
    {
        AccountSet { items: Vec::new() }
    }

    /// Membership test.
    pub fn contains(&self, account: &AccountId) -> (r: bool)
        ensures
            r == self.contains_view(account@),
    {
        let mut i: usize = 0;
        while i < self.items.len()
            invariant
                i <= self.items@.len(),
                forall|j: int| 0 <= j < i ==> (#[trigger] self.items@[j]@) != account@,
            decreases self.items@.len() - i,
        {
            if self.items[i] == *account {
                return true;
            }
            i += 1;
        }
        false
    }

    /// Idempotent insertion: appends the account unless already a member.
    pub fn insert(&mut self, account: AccountId)
        requires
            old(self).wf(),
        ensures
            final(self).wf(),
            old(self).contains_view(account@) ==> final(self).items@ == old(self).items@,
            !old(self).contains_view(account@) ==> final(self).items@ == old(self).items@.push(
                account,
            ),
            final(self).views() == register_views(old(self).views(), account@),
    {
        let present = self.contains(&account);
        if !present {
            self.items.push(account);
        }
        proof {
            let s0 = old(self).items@;
            assert(old(self).views().contains(account@) == old(self).contains_view(account@))
                by {
                if old(self).contains_view(account@) {
                    let i = choose|i: int| 0 <= i < s0.len() && (#[trigger] s0[i]@) == account@;
                    assert(account_views(s0)[i] == account@);
                }
                if account_views(s0).contains(account@) {
                    let i = choose|i: int|
                        0 <= i < account_views(s0).len() && account_views(s0)[i] == account@;
                    assert(s0[i]@ == account@);
                }
            }
            if !present {
                assert(final(self).views() =~= old(self).views().push(account@));
            }
        }
    }

    /// The number of members.
    pub fn len(&self) -> (r: usize)
        ensures
            r == self.items@.len(),
    {
        self.items.len()
    }

    /// The members in insertion order, as a fresh vector.
    pub fn to_vec(&self) -> (r: Vec<AccountId>)
        ensures
            r@ == self.items@,
    {
        let mut r: Vec<AccountId> = Vec::new();
        let mut i: usize = 0;
        while i < self.items.len()
            invariant
                i <= self.items@.len(),
                r@ == self.items@.take(i as int),
            decreases self.items@.len() - i,
        {
            r.push(self.items[i].clone());
            i += 1;
            proof {
                assert(r@ =~= self.items@.take(i as int));
            }
        }
        proof {
            assert(r@ =~= self.items@);
        }
        r
    }
}

impl Contract {
    /// Registers `account` on the allow-list. Idempotent; callable by anyone,
    /// on behalf of any account.
    pub fn vaxxx(&mut self, account: AccountId)
        requires
            old(self).wf(),
        ensures
            final(self).wf(),
            final(self).vaxxxed.views() == register_views(old(self).vaxxxed.views(), account@),
            old(self).is_vaxxxed(account@) ==> final(self).vaxxxed.items@ == old(
                self,
            ).vaxxxed.items@,
            !old(self).is_vaxxxed(account@) ==> final(self).vaxxxed.items@ == old(
                self,
            ).vaxxxed.items@.push(account),
            final(self).tokens_by_id == old(self).tokens_by_id,
            final(self).token_metadata_by_id == old(self).token_metadata_by_id,
            final(self).tokens_per_owner == old(self).tokens_per_owner,
            final(self).next_token_id == old(self).next_token_id,
            final(self).owner_id == old(self).owner_id,
            final(self).metadata == old(self).metadata,
    {
        self.vaxxxed.insert(account);
        proof {
            Contract::lemma_wf_ledger_unchanged(*old(self), *self);
        }
    }

    /// Whether `account` is on the allow-list.
    pub fn vaxxx_pass(&self, account: AccountId) -> (r: bool)
        ensures
            r == self.is_vaxxxed(account@),
    {
        self.vaxxxed.contains(&account)
    }

    /// The allow-list members in insertion order.
    pub fn vaxxx_list(&self) -> (r: Vec<AccountId>)
        ensures
            r@ == self.vaxxxed.items@,
    {
        self.vaxxxed.to_vec()
    }
}

} // verus!

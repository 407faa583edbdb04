//! The quarantine/cure operation: a caller-scoped bulk burn. Every token
//! the caller holds is transferred, in enumeration order, to the fixed sink
//! account; the identifiers are snapshotted before the loop so removals
//! during the loop can neither skip nor duplicate an entry. Tokens owned by
//! the sink remain valid, queryable records.

use vstd::prelude::*;
use crate::errors::NftError;
use crate::metadata::{AccountId, Token, TokenId};
use crate::owner_index::{lemma_ids_no_duplicates, remove_first};
use crate::Contract;

verus! {

/// The sink account: the terminal holder for burned and cured tokens.
pub open spec fn burn_account() -> Seq<char> {
    "burn.near"@
}

/// The sink account as a value.
pub fn burn_address() -> (r: AccountId)
    ensures
        r@ == burn_account(),
{
    "burn.near".to_owned()
}

/// Removing the head of a duplicate-free suffix leaves the next suffix.
proof fn lemma_skip_head_removed(s: Seq<TokenId>, j: int)
    requires
        s.no_duplicates(),
        0 <= j < s.len(),
    ensures
        s.skip(j).contains(s[j]),
        remove_first(s.skip(j), s[j]) == s.skip(j + 1),
{
    let tail = s.skip(j);
    assert(tail[0] == s[j]);
    assert(tail.contains(s[j]));
    let k = tail.index_of(s[j]);
    assert(0 <= k < tail.len() && tail[k] == s[j]);
    assert(k == 0) by {
        if k != 0 {
            assert(s[j + k] == s[j]);
        }
    }
    assert(tail.remove(0) =~= s.skip(j + 1));
}

impl Contract {
    /// Transfers every token `caller` holds to the sink account, in the
    /// owner index's enumeration order, all or nothing. Fails with
    /// `NothingToCure` when the caller holds no token; the sink account
    /// itself cannot be cured, since each leg would be a transfer to the
    /// token's current owner.
    pub fn nft_cure(&mut self, caller: AccountId) -> (r: Result<(), NftError>)
        requires
            old(self).wf(),
        ensures
            final(self).wf(),
            ({
                let pre = *old(self);
                let held = pre.holdings(caller@);
                if held.len() == 0 {
                    r == Err::<(), NftError>(NftError::NothingToCure) && *final(self) == pre
                } else if caller@ == burn_account() {
                    r == Err::<(), NftError>(NftError::NoOpTransfer) && *final(self) == pre
                } else {
                    &&& r == Ok::<(), NftError>(())
                    &&& final(self).next_token_id == pre.next_token_id
                    &&& final(self).metas() == pre.metas()
                    &&& final(self).tokens().len() == pre.tokens().len()
                    &&& forall|t: TokenId|
                        held.contains(t) ==> (#[trigger] final(self).tokens()[t as int]).owner_id@
                            == burn_account()
                    &&& forall|t: int|
                        0 <= t < pre.tokens().len() && !held.contains(t as u64) ==> (
                        #[trigger] final(self).tokens()[t]) == pre.tokens()[t]
                    &&& final(self).holdings(caller@) == Seq::<TokenId>::empty()
                    &&& final(self).holdings(burn_account()) == pre.holdings(burn_account()) + held
                    &&& forall|b: Seq<char>|
                        b != caller@ && b != burn_account() ==> final(self).holdings(b)
                            == pre.holdings(b)
                    &&& final(self).vaxxxed == pre.vaxxxed
                    &&& final(self).owner_id == pre.owner_id
                    &&& final(self).metadata == pre.metadata
                }
            }),
    {
        let ghost pre = *old(self);
        let ghost held = pre.holdings(caller@);
        // snapshot the caller's holdings before mutating the very index the
        // loop drains
        let ids: Vec<TokenId> = self.tokens_per_owner.tokens_of(&caller);
        if ids.len() == 0 {
            return Err(NftError::NothingToCure);
        }
        let burn: AccountId = burn_address();
        if caller == burn {
            return Err(NftError::NoOpTransfer);
        }
        proof {
            lemma_ids_no_duplicates(pre.tokens_per_owner, caller@);
        }
        let mut j: usize = 0;
        while j < ids.len()
            invariant
                pre.wf(),
                self.wf(),
                held == pre.holdings(caller@),
                ids@ == held,
                held.no_duplicates(),
                held.len() > 0,
                caller@ != burn_account(),
                burn@ == burn_account(),
                j <= held.len(),
                self.next_token_id == pre.next_token_id,
                self.metas() == pre.metas(),
                self.tokens().len() == pre.tokens().len(),
                self.vaxxxed == pre.vaxxxed,
                self.owner_id == pre.owner_id,
                self.metadata == pre.metadata,
                self.holdings(caller@) == held.skip(j as int),
                self.holdings(burn_account()) == pre.holdings(burn_account()) + held.take(
                    j as int,
                ),
                forall|b: Seq<char>|
                    b != caller@ && b != burn_account() ==> self.holdings(b) == pre.holdings(b),
                forall|k: int|
                    0 <= k < j ==> (#[trigger] self.tokens()[held[k] as int]).owner_id@
                        == burn_account(),
                forall|t: int|
                    0 <= t < pre.tokens().len() && !held.take(j as int).contains(t as u64) ==> (
                    #[trigger] self.tokens()[t]) == pre.tokens()[t],
            decreases ids@.len() - j,
        {
            let tid = ids[j];
            let ghost mid = *self;
            proof {
                assert(mid.holdings(caller@)[0] == tid);
                assert((tid as int) < mid.tokens().len() && mid.tokens()[tid as int].owner_id@
                    == caller@);
            }
            self.internal_transfer(&burn, tid);
            j += 1;
            proof {
                lemma_skip_head_removed(held, j as int - 1);
                assert(self.holdings(caller@) == held.skip(j as int));
                assert(self.holdings(burn_account()) == (pre.holdings(burn_account()) + held.take(
                    j as int - 1,
                )).push(tid));
                assert(self.holdings(burn_account()) =~= pre.holdings(burn_account()) + held.take(
                    j as int,
                ));
                assert(held.take(j as int) =~= held.take(j as int - 1).push(tid));
                assert forall|t: int|
                    0 <= t < pre.tokens().len() && !held.take(j as int).contains(t as u64) implies (
                #[trigger] self.tokens()[t]) == pre.tokens()[t] by {
                    assert(!held.take(j as int - 1).contains(t as u64)) by {
                        if held.take(j as int - 1).contains(t as u64) {
                            let k = choose|k: int|
                                0 <= k < held.take(j as int - 1).len() && (#[trigger] held.take(
                                    j as int - 1,
                                )[k]) == t as u64;
                            assert(held.take(j as int)[k] == t as u64);
                        }
                    }
                    assert(t != tid as int) by {
                        assert(held.take(j as int)[j as int - 1] == tid);
                    }
                    assert(self.tokens()[t] == mid.tokens()[t]);
                }
                assert forall|k: int|
                    0 <= k < j implies (#[trigger] self.tokens()[held[k] as int]).owner_id@
                    == burn_account() by {
                    if k == j as int - 1 {
                        assert(self.tokens()[tid as int].owner_id@ == burn@);
                    } else {
                        assert(held[j as int - 1] == tid);
                        assert(held[k] != tid);
                        assert(held[k] == pre.holdings(caller@)[k]);
                        assert((held[k] as int) < pre.tokens().len() && pre.tokens()[
                            held[k] as int
                        ].owner_id@ == caller@);
                        assert(self.tokens()[held[k] as int] == mid.tokens()[held[k] as int]);
                    }
                }
            }
        }
        proof {
            assert(held.skip(held.len() as int) =~= Seq::<TokenId>::empty());
            assert(held.take(held.len() as int) =~= held);
            assert forall|t: TokenId| held.contains(t) implies (#[trigger] final(self).tokens()[
                t as int
            ]).owner_id@ == burn_account() by {
                let k = choose|k: int| 0 <= k < held.len() && held[k] == t;
                assert(final(self).tokens()[held[k] as int].owner_id@ == burn_account());
            }
        }
        Ok(())
    }
}

} // verus!

//! The single-leg move at the heart of every transfer: update the token's
//! owner field and perform the paired owner-index remove + add in the same
//! logical step, so the index and the store never disagree.

use vstd::prelude::*;
use crate::metadata::{AccountId, Token, TokenId};
use crate::owner_index::{ids_of, lemma_ids_no_duplicates, lemma_remove_first_props, remove_first};
use crate::Contract;

verus! {

/// The holdings of account `b` after moving token `token_id` from its
/// current owner to `recv`: the identifier leaves the old owner's list and
/// is appended to the receiver's.
pub open spec fn moved_holdings(
    pre: Contract,
    b: Seq<char>,
    token_id: TokenId,
    recv: Seq<char>,
) -> Seq<TokenId> {
    let h1 = if b == pre.owner_of(token_id) {
        remove_first(pre.holdings(b), token_id)
    } else {
        pre.holdings(b)
    };
    if b == recv {
        h1.push(token_id)
    } else {
        h1
    }
}

impl Contract {
    /// Moves an existing token to `receiver_id`, who must not already own
    /// it. Only the owner field of the record changes; metadata, counter
    /// and allow-list are untouched.
    pub(crate) fn internal_transfer(&mut self, receiver_id: &AccountId, token_id: TokenId)
        requires
            old(self).wf(),
            old(self).token_exists(token_id),
            old(self).owner_of(token_id) != receiver_id@,
        ensures
            final(self).wf(),
            final(self).tokens() == old(self).tokens().update(
                token_id as int,
                Token { token_id, owner_id: *receiver_id },
            ),
            final(self).metas() == old(self).metas(),
            final(self).next_token_id == old(self).next_token_id,
            final(self).vaxxxed == old(self).vaxxxed,
            final(self).owner_id == old(self).owner_id,
            final(self).metadata == old(self).metadata,
            forall|b: Seq<char>|
                final(self).holdings(b) == moved_holdings(*old(self), b, token_id, receiver_id@),
    {
        let ghost pre = *old(self);
        let ghost own0 = pre.owner_of(token_id);
        proof {
            // the moved token is in its owner's duplicate-free list, and not
            // in the receiver's
            assert(pre.holdings(own0).contains(token_id)) by {
                assert((token_id as int) < pre.tokens().len());
                assert(pre.tokens()[token_id as int].token_id == token_id);
            }
            lemma_ids_no_duplicates(pre.tokens_per_owner, own0);
            lemma_ids_no_duplicates(pre.tokens_per_owner, receiver_id@);
            assert(!pre.holdings(receiver_id@).contains(token_id)) by {
                if pre.holdings(receiver_id@).contains(token_id) {
                    let k = choose|k: int|
                        0 <= k < pre.holdings(receiver_id@).len() && pre.holdings(receiver_id@)[k]
                            == token_id;
                    assert(pre.tokens()[token_id as int].owner_id@ == receiver_id@);
                }
            }
        }
        let owner: AccountId = match self.tokens_by_id.get(&token_id) {
            Some(t) => t.owner_id.clone(),
            None => {
                proof {
                    assert(false);
                }
                vstd::pervasive::unreached()
            },
        };
        proof {
            assert(owner@ == own0);
        }
        self.tokens_per_owner.remove_token(&owner, token_id);
        self.tokens_by_id.set_owner(token_id, receiver_id.clone());
        self.tokens_per_owner.add_token(receiver_id, token_id);
        proof {
            let post = *self;
            assert(post.tokens() == pre.tokens().update(
                token_id as int,
                Token { token_id, owner_id: *receiver_id },
            ));
            assert(post.holdings(receiver_id@) == pre.holdings(receiver_id@).push(token_id));
            assert(post.holdings(own0) == remove_first(pre.holdings(own0), token_id));
            assert forall|b: Seq<char>| post.holdings(b) == moved_holdings(
                pre,
                b,
                token_id,
                receiver_id@,
            ) by {}
            lemma_remove_first_props(pre.holdings(own0), token_id);
            // well-formedness: everything the index holds exists and is
            // owned by the right account ...
            assert forall|a: Seq<char>, k: int| 0 <= k < post.holdings(a).len() implies {
                let t = #[trigger] post.holdings(a)[k];
                &&& (t as int) < post.tokens().len()
                &&& post.tokens()[t as int].owner_id@ == a
            } by {
                let t = post.holdings(a)[k];
                if a == receiver_id@ {
                    if k < pre.holdings(a).len() {
                        assert(t == pre.holdings(a)[k]);
                        assert((t as int) < pre.tokens().len() && pre.tokens()[t as int].owner_id@
                            == a);
                        assert(t != token_id);
                        assert(post.tokens()[t as int] == pre.tokens()[t as int]);
                    } else {
                        assert(t == token_id);
                    }
                } else if a == own0 {
                    assert(post.holdings(a).contains(t));
                    assert(t != token_id);
                    assert(pre.holdings(a).contains(t));
                    let j = choose|j: int|
                        0 <= j < pre.holdings(a).len() && pre.holdings(a)[j] == t;
                    assert((t as int) < pre.tokens().len() && pre.tokens()[t as int].owner_id@
                        == a);
                    assert(post.tokens()[t as int] == pre.tokens()[t as int]);
                } else {
                    assert(t == pre.holdings(a)[k]);
                    assert((t as int) < pre.tokens().len() && pre.tokens()[t as int].owner_id@
                        == a);
                    assert(t != token_id);
                    assert(post.tokens()[t as int] == pre.tokens()[t as int]);
                }
            }
            // ... and every token is in its owner's set
            assert forall|t: int| 0 <= t < post.tokens().len() implies post.holdings(
                (post.tokens()[t]).owner_id@,
            ).contains(t as u64) by {
                if t == token_id as int {
                    let h = post.holdings(receiver_id@);
                    assert(h[h.len() - 1] == token_id);
                    assert(h.contains(token_id));
                } else {
                    assert(post.tokens()[t] == pre.tokens()[t]);
                    let a = pre.tokens()[t].owner_id@;
                    assert(pre.holdings(a).contains(t as u64));
                    if a == own0 {
                        assert(post.holdings(a).contains(t as u64));
                    } else if a == receiver_id@ {
                        let k = choose|k: int|
                            0 <= k < pre.holdings(a).len() && pre.holdings(a)[k] == t as u64;
                        assert(post.holdings(a)[k] == t as u64);
                        assert(post.holdings(a).contains(t as u64));
                    } else {
                        assert(post.holdings(a) == pre.holdings(a));
                    }
                }
            }
            assert(post.wf());
        }
    }
}

} // verus!

//! Minting: allocates the next identifier, stores the token and its
//! metadata, and inserts the token into the owner index, in one logical
//! atomic step.

use vstd::prelude::*;
use crate::metadata::{AccountId, Token, TokenId, TokenMetadata};
use crate::Contract;

verus! {

impl Contract {
    /// Mints a new token owned by `receiver_id`, carrying `metadata`, and
    /// returns its freshly allocated identifier — the counter value, which
    /// is strictly greater than every previously issued identifier. Reading
    /// the new identifier's metadata returns exactly `metadata`. No failure
    /// mode: overflow of the identifier counter is a fatal defect, excluded
    /// by precondition rather than handled.
    pub fn nft_mint(&mut self, metadata: TokenMetadata, receiver_id: AccountId) -> (r: TokenId)
        requires
            old(self).wf(),
            old(self).next_token_id < usize::MAX as u64,
        ensures
            final(self).wf(),
            r == old(self).next_token_id,
            final(self).next_token_id == old(self).next_token_id + 1,
            final(self).tokens() == old(self).tokens().push(
                Token { token_id: r, owner_id: receiver_id },
            ),
            final(self).metas() == old(self).metas().push(metadata),
            final(self).metas()[r as int] == metadata,
            final(self).holdings(receiver_id@) == old(self).holdings(receiver_id@).push(r),
            forall|b: Seq<char>|
                b != receiver_id@ ==> final(self).holdings(b) == old(self).holdings(b),
            final(self).vaxxxed == old(self).vaxxxed,
            final(self).owner_id == old(self).owner_id,
            final(self).metadata == old(self).metadata,
    {
        let token_id = self.next_token_id;
        let token = Token { token_id, owner_id: receiver_id.clone() };
        self.tokens_by_id.put(token);
        self.token_metadata_by_id.put(metadata);
        proof {
            // The fresh identifier equals the counter, and everything the
            // index holds is strictly below the counter.
            assert(!old(self).holdings(receiver_id@).contains(token_id)) by {
                if old(self).holdings(receiver_id@).contains(token_id) {
                    let k = choose|k: int|
                        0 <= k < old(self).holdings(receiver_id@).len() && old(self).holdings(
                            receiver_id@,
                        )[k] == token_id;
                    assert((old(self).holdings(receiver_id@)[k] as int) < old(
                        self,
                    ).tokens().len());
                }
            }
        }
        self.tokens_per_owner.add_token(&receiver_id, token_id);
        self.next_token_id = token_id + 1;
        proof {
            let pre = *old(self);
            let post = *self;
            assert(post.tokens() == pre.tokens().push(Token { token_id, owner_id: receiver_id }));
            assert(post.holdings(receiver_id@) == pre.holdings(receiver_id@).push(token_id));
            assert forall|a: Seq<char>, k: int| 0 <= k < post.holdings(a).len() implies {
                let t = #[trigger] post.holdings(a)[k];
                &&& (t as int) < post.tokens().len()
                &&& post.tokens()[t as int].owner_id@ == a
            } by {
                if a == receiver_id@ {
                    if k < pre.holdings(a).len() {
                        let t = pre.holdings(a)[k];
                        assert((t as int) < pre.tokens().len() && pre.tokens()[t as int].owner_id@
                            == a);
                        assert(post.tokens()[t as int] == pre.tokens()[t as int]);
                    } else {
                        assert(post.holdings(a)[k] == token_id);
                        assert(post.tokens()[token_id as int].owner_id@ == receiver_id@);
                    }
                } else {
                    assert(post.holdings(a) == pre.holdings(a));
                    let t = pre.holdings(a)[k];
                    assert((t as int) < pre.tokens().len() && pre.tokens()[t as int].owner_id@
                        == a);
                    assert(post.tokens()[t as int] == pre.tokens()[t as int]);
                }
            }
            assert forall|t: int| 0 <= t < post.tokens().len() implies post.holdings(
                (post.tokens()[t]).owner_id@,
            ).contains(t as u64) by {
                if t < pre.tokens().len() {
                    assert(post.tokens()[t] == pre.tokens()[t]);
                    let a = pre.tokens()[t].owner_id@;
                    assert(pre.holdings(a).contains(t as u64));
                    let k = choose|k: int|
                        0 <= k < pre.holdings(a).len() && pre.holdings(a)[k] == t as u64;
                    if a == receiver_id@ {
                        assert(post.holdings(a)[k] == t as u64);
                    } else {
                        assert(post.holdings(a) == pre.holdings(a));
                    }
                    assert(post.holdings(a).contains(t as u64));
                } else {
                    assert(post.tokens()[t].owner_id@ == receiver_id@);
                    let h = post.holdings(receiver_id@);
                    assert(h[h.len() - 1] == token_id);
                    assert(h.contains(t as u64));
                }
            }
            assert(post.wf());
        }
        token_id
    }
}

} // verus!

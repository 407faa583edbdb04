//! The public transfer operation and the read-only token accessors.
//!
//! A transfer moves a token to the primary receiver and, when a secondary
//! receiver is named and eligible, additionally clones the token's metadata
//! into a freshly minted token for that account — the "mutation". Approval
//! bookkeeping is an external collaborator: the caller of the library hands
//! in the collaborator's verdict on the supplied approval identifier.

use vstd::prelude::*;
use crate::errors::NftError;
use crate::internal::moved_holdings;
use crate::metadata::{clone_metadata, AccountId, Token, TokenId, TokenMetadata};
use crate::Contract;

verus! {

/// Step-2 authorization: the caller owns the token, or holds an approval
/// that the external approval collaborator confirmed as still current.
pub open spec fn transfer_authorized(
    pre: Contract,
    caller: Seq<char>,
    token_id: TokenId,
    approval_id: Option<u64>,
    approval_is_current: bool,
) -> bool {
    pre.owner_of(token_id) == caller || (approval_id.is_some() && approval_is_current)
}

/// The error a transfer surfaces, if any: unknown token, failed
/// authorization (stale approval when one was supplied), or a primary
/// receiver who already owns the token.
pub open spec fn transfer_error(
    pre: Contract,
    caller: Seq<char>,
    recv: Seq<char>,
    token_id: TokenId,
    approval_id: Option<u64>,
    approval_is_current: bool,
) -> Option<NftError> {
    if !pre.token_exists(token_id) {
        Some(NftError::NotFound)
    } else if !transfer_authorized(pre, caller, token_id, approval_id, approval_is_current) {
        if approval_id.is_some() {
            Some(NftError::StaleApproval)
        } else {
            Some(NftError::Unauthorized)
        }
    } else if recv == pre.owner_of(token_id) {
        Some(NftError::NoOpTransfer)
    } else {
        None
    }
}

/// The mutation-eligibility policy: the clone is minted exactly when a
/// secondary receiver is named, differs from the primary receiver, and is
/// not protected by the allow-list gate.
pub open spec fn mutation_due(
    pre: Contract,
    recv: Seq<char>,
    secondary: Option<AccountId>,
) -> bool {
    match secondary {
        Some(sr) => sr@ != recv && !pre.is_vaxxxed(sr@),
        None => false,
    }
}

impl Contract {
    /// Transfers `token_id` from its current owner to `receiver_id`; the
    /// sender is always `caller`, the authenticated account the host hands
    /// in. `approval_is_current` is the external approval collaborator's
    /// answer for `(token_id, approval_id)`. When the mutation policy
    /// applies, a clone of the token's metadata is minted to the secondary
    /// receiver under a fresh identifier. `memo` accompanies the event that
    /// the host emits; it does not influence the ledger. Approval records
    /// live with the external collaborator, which drops them once the token
    /// they were granted against moves.
    pub fn nft_transfer(
        &mut self,
        caller: AccountId,
        receiver_id: AccountId,
        token_id: TokenId,
        secondary_receiver: Option<AccountId>,
        approval_id: Option<u64>,
        approval_is_current: bool,
        memo: Option<String>,
    ) -> (r: Result<(), NftError>)
        requires
            old(self).wf(),
            secondary_receiver.is_some() ==> old(self).next_token_id < usize::MAX as u64,
        ensures
            final(self).wf(),
            ({
                let pre = *old(self);
                let err = transfer_error(
                    pre,
                    caller@,
                    receiver_id@,
                    token_id,
                    approval_id,
                    approval_is_current,
                );
                let mutation = mutation_due(pre, receiver_id@, secondary_receiver);
                match err {
                    Some(e) => r == Err::<(), NftError>(e) && *final(self) == pre,
                    None => {
                        &&& r == Ok::<(), NftError>(())
                        &&& mutation ==> {
                            &&& final(self).next_token_id == pre.next_token_id + 1
                            &&& final(self).tokens() == pre.tokens().update(
                                token_id as int,
                                Token { token_id, owner_id: receiver_id },
                            ).push(
                                Token {
                                    token_id: pre.next_token_id,
                                    owner_id: secondary_receiver.unwrap(),
                                },
                            )
                            &&& final(self).metas().len() == pre.metas().len() + 1
                            &&& final(self).metas().subrange(0, pre.metas().len() as int)
                                == pre.metas()
                            &&& final(self).metas().last().view_of() == pre.metas()[
                                token_id as int
                            ].view_of()
                        }
                        &&& !mutation ==> {
                            &&& final(self).next_token_id == pre.next_token_id
                            &&& final(self).tokens() == pre.tokens().update(
                                token_id as int,
                                Token { token_id, owner_id: receiver_id },
                            )
                            &&& final(self).metas() == pre.metas()
                        }
                        &&& forall|b: Seq<char>|
                            final(self).holdings(b) == ({
                                let h1 = moved_holdings(pre, b, token_id, receiver_id@);
                                if mutation && b == secondary_receiver.unwrap()@ {
                                    h1.push(pre.next_token_id)
                                } else {
                                    h1
                                }
                            })
                        &&& final(self).vaxxxed == pre.vaxxxed
                        &&& final(self).owner_id == pre.owner_id
                        &&& final(self).metadata == pre.metadata
                    },
                }
            }),
    {
        let ghost pre = *old(self);
        // step 1: look the token up
        let owner: AccountId = match self.tokens_by_id.get(&token_id) {
            Some(t) => t.owner_id.clone(),
            None => {
                return Err(NftError::NotFound);
            },
        };
        // step 2: authorization
        let authorized = owner == caller || (approval_id.is_some() && approval_is_current);
        if !authorized {
            if approval_id.is_some() {
                return Err(NftError::StaleApproval);
            }
            return Err(NftError::Unauthorized);
        }
        // step 3: the primary leg must actually move the token
        if owner == receiver_id {
            return Err(NftError::NoOpTransfer);
        }
        // step 4: move the token
        self.internal_transfer(&receiver_id, token_id);
        // step 5: the mutation leg, when the policy applies
        match secondary_receiver {
            Some(sr) => {
                let eligible = !(sr == receiver_id) && !self.vaxxxed.contains(&sr);
                if eligible {
                    let meta: TokenMetadata = match self.token_metadata_by_id.get(&token_id) {
                        Some(m) => clone_metadata(m),
                        None => {
                            proof {
                                assert(false);
                            }
                            vstd::pervasive::unreached()
                        },
                    };
                    let ghost mid = *self;
                    self.nft_mint(meta, sr);
                    proof {
                        assert(final(self).metas().subrange(0, pre.metas().len() as int)
                            =~= pre.metas());
                        assert forall|b: Seq<char>|
                            final(self).holdings(b) == ({
                                let h1 = moved_holdings(pre, b, token_id, receiver_id@);
                                if b == secondary_receiver.unwrap()@ {
                                    h1.push(pre.next_token_id)
                                } else {
                                    h1
                                }
                            }) by {
                            if b != secondary_receiver.unwrap()@ {
                                assert(final(self).holdings(b) == mid.holdings(b));
                            }
                        }
                    }
                } else {
                    proof {
                        assert(!mutation_due(pre, receiver_id@, secondary_receiver));
                    }
                }
            },
            None => {},
        }
        Ok(())
    }

    /// The token record for `token_id`, or `None` when that identifier was
    /// never issued.
    pub fn nft_token(&self, token_id: TokenId) -> (r: Option<&Token>)
        ensures
            r.is_some() <==> self.token_exists(token_id),
            r.is_some() ==> *r.unwrap() == self.tokens()[token_id as int],
    {
        self.tokens_by_id.get(&token_id)
    }

    /// The metadata stored for `token_id`, or `None` when that identifier
    /// was never issued.
    pub fn nft_token_metadata(&self, token_id: TokenId) -> (r: Option<&TokenMetadata>)
        ensures
            r.is_some() <==> (token_id as int) < self.metas().len(),
            r.is_some() ==> *r.unwrap() == self.metas()[token_id as int],
    {
        self.token_metadata_by_id.get(&token_id)
    }
}

} // verus!

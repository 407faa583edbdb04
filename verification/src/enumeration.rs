//! Read-only enumeration queries over the owner index: which tokens an
//! account holds and how many. Unknown accounts hold nothing — an empty
//! answer, not an error.

use vstd::prelude::*;
use crate::metadata::{AccountId, TokenId};
use crate::Contract;

verus! {

impl Contract {
    /// The identifiers `account_id` holds, in insertion order.
    pub fn nft_tokens_for_owner(&self, account_id: AccountId) -> (r: Vec<TokenId>)
        requires
            self.wf(),
        ensures
            r@ == self.holdings(account_id@),
    {
        self.tokens_per_owner.tokens_of(&account_id)
    }

    /// How many tokens `account_id` holds.
    pub fn nft_supply_for_owner(&self, account_id: AccountId) -> (r: u64)
        requires
            self.wf(),
        ensures
            r == self.holdings(account_id@).len(),
    {
        self.tokens_per_owner.count_of(&account_id) as u64
    }
}

} // verus!

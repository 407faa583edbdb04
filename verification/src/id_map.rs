//! The system of record for tokens and their metadata: a keyed store whose
//! keys are the densely allocated token identifiers `0 .. len`, so a record's
//! key is its position. Records are only ever appended (minting) or updated
//! in their owner field (transferring); none is ever deleted.

use vstd::prelude::*;
use vstd::pervasive::VecAdditionalExecFns;
use crate::metadata::{AccountId, Token, TokenId};

verus! {

/// A map from `TokenId` to `T` whose key space is exactly `0 .. items.len()`.
pub struct IdMap<T> {
    pub items: Vec<T>,
}

impl<T> IdMap<T> {
    pub open spec fn contains_id(self, id: TokenId) -> bool {
        (id as int) < self.items@.len()
    }

    pub fn empty() -> (r: Self)
        ensures
            r.items@ == Seq::<T>::empty(),
    {
        IdMap { items: Vec::new() }
    }

    /// Looks a record up by its identifier; `None` exactly when the
    /// identifier was never issued.
    pub fn get(&self, id: &TokenId) -> (r: Option<&T>)
        ensures
            r.is_some() <==> self.contains_id(*id),
            r.is_some() ==> *r.unwrap() == self.items@[*id as int],
    {
        if *id < self.items.len() as u64 {
            Some(&self.items[*id as usize])
        } else {
            None
        }
    }

    /// Inserts a new record under the next free identifier, which is the
    /// store's current length.
    pub fn put(&mut self, value: T)
        ensures
            final(self).items@ == old(self).items@.push(value),
    {
        self.items.push(value);
    }

    pub fn len(&self) -> (r: usize)
        ensures
            r == self.items@.len(),
    {
        self.items.len()
    }
}

impl IdMap<Token> {
    /// Updates only the owner field of an existing token record. The caller
    /// (the transfer engine) updates the owner index in the same logical step.
    pub fn set_owner(&mut self, id: TokenId, new_owner: AccountId)
        requires
            old(self).contains_id(id),
        ensures
            final(self).items@ == old(self).items@.update(
                id as int,
                Token { token_id: old(self).items@[id as int].token_id, owner_id: new_owner },
            ),
    {
        let token_id = self.items[id as usize].token_id;
        self.items.set(id as usize, Token { token_id, owner_id: new_owner });
    }
}

} // verus!

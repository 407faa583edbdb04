//! The error kinds that a ledger operation can surface. Every operation is
//! fully successful or fully failed; callers match on the kind, not on the
//! accompanying human-readable message.

use vstd::prelude::*;

verus! {

#[derive(Clone, Copy, Debug, PartialEq, Eq, Structural)]
pub enum NftError {
    /// The token identifier was never issued.
    NotFound,
    /// The caller is neither the owner nor a valid approval holder.
    Unauthorized,
    /// An approval identifier was supplied but is no longer current.
    StaleApproval,
    /// The caller owns no tokens, so there is nothing to cure.
    NothingToCure,
    /// The primary receiver already owns the token.
    NoOpTransfer,
}

impl NftError {
    /// The human-readable message that accompanies each kind.
    pub fn message(&self) -> (r: String)
        ensures
            r@ == match *self {
                NftError::NotFound => "Token not found."@,
                NftError::Unauthorized => "Caller is not authorized to transfer this token."@,
                NftError::StaleApproval => "The supplied approval is no longer current."@,
                NftError::NothingToCure => "Account not infected."@,
                NftError::NoOpTransfer => "The receiver already owns this token."@,
            },
    {
        match self {
            NftError::NotFound => "Token not found.".to_owned(),
            NftError::Unauthorized => "Caller is not authorized to transfer this token.".to_owned(),
            NftError::StaleApproval => "The supplied approval is no longer current.".to_owned(),
            NftError::NothingToCure => "Account not infected.".to_owned(),
            NftError::NoOpTransfer => "The receiver already owns this token.".to_owned(),
        }
    }
}

} // verus!

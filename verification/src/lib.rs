//! A single-owner token ledger: it tracks which account holds which
//! non-fungible token, mutates that ledger under controlled operations
//! (mint, transfer, burn-by-transfer-to-sink, cure), and enforces side
//! invariants (an allow-list gate, monotonic identifier allocation, and
//! consistency of the owner index with the token store).
//!
//! The hosting environment — caller authentication, persistent storage,
//! event emission — stays outside this crate: every operation takes the
//! authenticated caller as a plain argument and the ledger state lives in
//! the [`Contract`] value itself.

use vstd::prelude::*;

pub mod metadata;
pub mod errors;
pub mod id_map;
pub mod owner_index;
pub mod vaxxx;
pub mod mint;
pub mod internal;
pub mod nft_core;
pub mod enumeration;
pub mod cure;
pub mod laws;

use crate::metadata::{AccountId, NFTContractMetadata, Token, TokenId, TokenMetadata};
use crate::id_map::IdMap;
use crate::owner_index::{ids_of, OwnerIndex};
use crate::vaxxx::AccountSet;

verus! {

/// The whole ledger state: token store, per-token metadata, the derived
/// owner index, the allow-list, and the identifier counter.
pub struct Contract {
    /// The account that deployed the ledger.
    pub owner_id: AccountId,
    /// Derived index: which token identifiers each account currently holds.
    pub tokens_per_owner: OwnerIndex,
    /// System of record: token identifier to current owner record.
    pub tokens_by_id: IdMap<Token>,
    /// Immutable per-token metadata, keyed like the token store.
    pub token_metadata_by_id: IdMap<TokenMetadata>,
    /// Collection-level metadata, written once at initialization.
    pub metadata: Option<NFTContractMetadata>,
    /// The allow-list of protected accounts.
    pub vaxxxed: AccountSet,
    /// The next identifier to issue; advanced by one on every mint.
    pub next_token_id: TokenId,
}

impl Contract {
    /// The token records, in identifier order.
    pub open spec fn tokens(self) -> Seq<Token> {
        self.tokens_by_id.items@
    }

    /// The metadata records, in identifier order.
    pub open spec fn metas(self) -> Seq<TokenMetadata> {
        self.token_metadata_by_id.items@
    }

    /// The ordered identifiers account `a` currently holds.
    pub open spec fn holdings(self, a: Seq<char>) -> Seq<TokenId> {
        ids_of(self.tokens_per_owner.entries@, a)
    }

    /// Whether identifier `t` was ever issued.
    pub open spec fn token_exists(self, t: TokenId) -> bool {
        (t as int) < self.tokens().len()
    }

    /// The current owner of token `t` (meaningful when it exists).
    pub open spec fn owner_of(self, t: TokenId) -> Seq<char> {
        self.tokens()[t as int].owner_id@
    }

    /// Whether account `a` is on the allow-list.
    pub open spec fn is_vaxxxed(self, a: Seq<char>) -> bool {
        self.vaxxxed.contains_view(a)
    }

    /// Well-formedness of the whole ledger.
    ///
    /// - the stores hold exactly the identifiers `0 .. next_token_id`, each
    ///   record keyed by its own identifier;
    /// - the owner index is a partition: every held identifier exists and is
    ///   held by the account the token store names as owner, and every
    ///   existing token is in its owner's set (so in exactly one set);
    /// - no account appears twice in the index, no identifier twice in a
    ///   set, no account twice on the allow-list.
    pub open spec fn wf(self) -> bool {
        &&& self.tokens().len() == self.next_token_id as int
        &&& self.metas().len() == self.next_token_id as int
        &&& forall|t: int|
            0 <= t < self.tokens().len() ==> (#[trigger] self.tokens()[t]).token_id == t as u64
        &&& self.tokens_per_owner.wf()
        &&& self.vaxxxed.wf()
        &&& forall|a: Seq<char>, k: int|
            0 <= k < self.holdings(a).len() ==> {
                let t = #[trigger] self.holdings(a)[k];
                &&& (t as int) < self.tokens().len()
                &&& self.tokens()[t as int].owner_id@ == a
            }
        &&& forall|t: int|
            0 <= t < self.tokens().len() ==> self.holdings(
                (#[trigger] self.tokens()[t]).owner_id@,
            ).contains(t as u64)
    }

    /// An operation that leaves the token store, the metadata store, the
    /// owner index and the counter untouched preserves well-formedness.
    pub proof fn lemma_wf_ledger_unchanged(pre: Contract, post: Contract)
        requires
            pre.wf(),
            post.tokens_by_id == pre.tokens_by_id,
            post.token_metadata_by_id == pre.token_metadata_by_id,
            post.tokens_per_owner == pre.tokens_per_owner,
            post.next_token_id == pre.next_token_id,
            post.vaxxxed.wf(),
        ensures
            post.wf(),
    {
        assert forall|a: Seq<char>, k: int| 0 <= k < post.holdings(a).len() implies {
            let t = #[trigger] post.holdings(a)[k];
            &&& (t as int) < post.tokens().len()
            &&& post.tokens()[t as int].owner_id@ == a
        } by {
            assert(post.holdings(a) == pre.holdings(a));
            let t = pre.holdings(a)[k];
            assert((t as int) < pre.tokens().len() && pre.tokens()[t as int].owner_id@ == a);
        }
        assert forall|t: int| 0 <= t < post.tokens().len() implies post.holdings(
            (post.tokens()[t]).owner_id@,
        ).contains(t as u64) by {
            assert(pre.holdings((pre.tokens()[t]).owner_id@).contains(t as u64));
            assert(post.holdings((post.tokens()[t]).owner_id@) == pre.holdings(
                (pre.tokens()[t]).owner_id@,
            ));
        }
    }

    /// Initializes an empty ledger with the given collection metadata.
    /// Invoked exactly once by the hosting collaborator.
    pub fn new(owner_id: AccountId, metadata: NFTContractMetadata) -> (r: Contract)
        ensures
            r.wf(),
            r.next_token_id == 0,
            r.tokens() == Seq::<Token>::empty(),
            r.metas() == Seq::<TokenMetadata>::empty(),
            forall|b: Seq<char>| r.holdings(b) == Seq::<TokenId>::empty(),
            r.vaxxxed.items@ == Seq::<AccountId>::empty(),
            r.metadata == Some(metadata),
            r.owner_id == owner_id,
    {
        let r = Contract {
            owner_id,
            tokens_per_owner: OwnerIndex::empty(),
            tokens_by_id: IdMap::<Token>::empty(),
            token_metadata_by_id: IdMap::<TokenMetadata>::empty(),
            metadata: Some(metadata),
            vaxxxed: AccountSet::empty(),
            next_token_id: 0,
        };
        r
    }

    /// Initializes an empty ledger with this collection's default metadata.
    pub fn new_default_meta(owner_id: AccountId) -> (r: Contract)
        ensures
            r.wf(),
            r.next_token_id == 0,
            r.tokens() == Seq::<Token>::empty(),
            r.metas() == Seq::<TokenMetadata>::empty(),
            forall|b: Seq<char>| r.holdings(b) == Seq::<TokenId>::empty(),
            r.vaxxxed.items@ == Seq::<AccountId>::empty(),
            r.owner_id == owner_id,
            r.metadata.is_some(),
            r.metadata.unwrap().spec_version@ == "nft-1.0.0"@,
            r.metadata.unwrap().name@ == "thevarus2022"@,
            r.metadata.unwrap().symbol@ == "VARUS"@,
            r.metadata.unwrap().icon is None,
            r.metadata.unwrap().base_uri is None,
            r.metadata.unwrap().reference is None,
            r.metadata.unwrap().reference_hash is None,
    {
        Self::new(
            owner_id,
            NFTContractMetadata {
                spec_version: "nft-1.0.0".to_owned(),
                name: "thevarus2022".to_owned(),
                symbol: "VARUS".to_owned(),
                icon: None,
                base_uri: None,
                reference: None,
                reference_hash: None,
            },
        )
    }
}

} // verus!

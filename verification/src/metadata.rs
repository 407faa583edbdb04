//! Data model of the ledger: token records, per-token metadata, and the
//! collection-level metadata, together with their mathematical views.

use vstd::prelude::*;

verus! {

/// Token identifiers are allocated by a single incrementing counter, so the
/// identifiers issued by one ledger are exactly `0 .. next_token_id`.
pub type TokenId = u64;

/// An authenticated account name, supplied by the hosting environment.
pub type AccountId = String;

/// A token record: one non-fungible token together with its current owner.
/// Its identity is `token_id`; only `owner_id` ever changes after minting.
pub struct Token {
    pub token_id: TokenId,
    pub owner_id: AccountId,
}

/// Per-token metadata. All fields are optional and immutable once written.
pub struct TokenMetadata {
    pub title: Option<String>,
    pub description: Option<String>,
    pub media: Option<String>,
    pub media_hash: Option<Vec<u8>>,
    pub copies: Option<u64>,
    pub issued_at: Option<u64>,
    pub expires_at: Option<u64>,
    pub starts_at: Option<u64>,
    pub updated_at: Option<u64>,
    pub extra: Option<String>,
    pub reference: Option<String>,
    pub reference_hash: Option<Vec<u8>>,
}

/// Metadata describing the whole collection, written once at initialization.
pub struct NFTContractMetadata {
    pub spec_version: String,
    pub name: String,
    pub symbol: String,
    pub icon: Option<String>,
    pub base_uri: Option<String>,
    pub reference: Option<String>,
    pub reference_hash: Option<Vec<u8>>,
}

/// The mathematical content of a `TokenMetadata` record: every text field as
/// a sequence of characters, every hash as a sequence of bytes.
pub ghost struct MetaView {
    pub title: Option<Seq<char>>,
    pub description: Option<Seq<char>>,
    pub media: Option<Seq<char>>,
    pub media_hash: Option<Seq<u8>>,
    pub copies: Option<u64>,
    pub issued_at: Option<u64>,
    pub expires_at: Option<u64>,
    pub starts_at: Option<u64>,
    pub updated_at: Option<u64>,
    pub extra: Option<Seq<char>>,
    pub reference: Option<Seq<char>>,
    pub reference_hash: Option<Seq<u8>>,
}

pub open spec fn opt_str_view(o: Option<String>) -> Option<Seq<char>> {
    match o {
        Some(s) => Some(s@),
        None => None,
    }
}

pub open spec fn opt_bytes_view(o: Option<Vec<u8>>) -> Option<Seq<u8>> {
    match o {
        Some(v) => Some(v@),
        None => None,
    }
}

impl TokenMetadata {
    /// Two records are interchangeable exactly when their views agree.
    pub open spec fn view_of(self) -> MetaView {
        MetaView {
            title: opt_str_view(self.title),
            description: opt_str_view(self.description),
            media: opt_str_view(self.media),
            media_hash: opt_bytes_view(self.media_hash),
            copies: self.copies,
            issued_at: self.issued_at,
            expires_at: self.expires_at,
            starts_at: self.starts_at,
            updated_at: self.updated_at,
            extra: opt_str_view(self.extra),
            reference: opt_str_view(self.reference),
            reference_hash: opt_bytes_view(self.reference_hash),
        }
    }
}

fn clone_opt_string(o: &Option<String>) -> (r: Option<String>)
    ensures
        r == *o,
{
    match o {
        Some(s) => Some(s.clone()),
        None => None,
    }
}

fn clone_opt_bytes(o: &Option<Vec<u8>>) -> (r: Option<Vec<u8>>)
    ensures
        opt_bytes_view(r) == opt_bytes_view(*o),
{
    match o {
        Some(v) => {
            let c = v.clone();
            assert(c@ =~= v@);
            Some(c)
        },
        None => None,
    }
}

/// Duplicates a metadata record; the copy carries exactly the same view.
/// Used by the mutation step of a transfer, which gives the cloned token the
/// original token's metadata.
pub fn clone_metadata(m: &TokenMetadata) -> (r: TokenMetadata)
    ensures
        r.view_of() == m.view_of(),
{
    TokenMetadata {
        title: clone_opt_string(&m.title),
        description: clone_opt_string(&m.description),
        media: clone_opt_string(&m.media),
        media_hash: clone_opt_bytes(&m.media_hash),
        copies: m.copies,
        issued_at: m.issued_at,
        expires_at: m.expires_at,
        starts_at: m.starts_at,
        updated_at: m.updated_at,
        extra: clone_opt_string(&m.extra),
        reference: clone_opt_string(&m.reference),
        reference_hash: clone_opt_bytes(&m.reference_hash),
    }
}

} // verus!

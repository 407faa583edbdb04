//! The ledger's general laws, each proved from the contracts and the
//! well-formedness invariant alone.

use vstd::prelude::*;
use crate::metadata::{TokenId, TokenMetadata};
use crate::vaxxx::register_views;
use crate::Contract;

verus! {

/// Law (ownership uniqueness): every existing token is in its owner's set,
/// and in no other account's set — exactly one account holds it, the one
/// the token store names as owner.
pub proof fn lemma_ownership_unique(c: Contract, t: TokenId)
    requires
        c.wf(),
        c.token_exists(t),
    ensures
        c.holdings(c.owner_of(t)).contains(t),
        forall|a: Seq<char>| #[trigger] c.holdings(a).contains(t) ==> a == c.owner_of(t),
{
    assert(c.holdings(c.tokens()[t as int].owner_id@).contains(t as u64));
    assert forall|a: Seq<char>| #[trigger] c.holdings(a).contains(t) implies a == c.owner_of(
        t,
    ) by {
        let k = choose|k: int| 0 <= k < c.holdings(a).len() && (#[trigger] c.holdings(a)[k]) == t;
        assert(c.tokens()[t as int].owner_id@ == a);
    }
}

/// Law (counter monotonicity): every identifier the ledger knows — every
/// existing token's and every identifier any account holds — is strictly
/// below the counter. A mint returns the counter value and advances it by
/// one, so every newly issued identifier is strictly greater than all
/// previously issued ones, and no identifier is ever reused.
pub proof fn lemma_issued_ids_below_counter(c: Contract)
    requires
        c.wf(),
    ensures
        forall|t: int|
            0 <= t < c.tokens().len() ==> (#[trigger] c.tokens()[t]).token_id < c.next_token_id,
        forall|a: Seq<char>, k: int|
            0 <= k < c.holdings(a).len() ==> (#[trigger] c.holdings(a)[k]) < c.next_token_id,
{
    assert forall|a: Seq<char>, k: int| 0 <= k < c.holdings(a).len() implies (
    #[trigger] c.holdings(a)[k]) < c.next_token_id by {
        assert((c.holdings(a)[k] as int) < c.tokens().len());
    }
}

/// Law (idempotence of registration): registering an account twice yields
/// the same allow-list members, in the same order — hence the same
/// membership and the same length — as registering it once.
pub proof fn lemma_register_idempotent(s: Seq<Seq<char>>, a: Seq<char>)
    ensures
        register_views(register_views(s, a), a) == register_views(s, a),
{
    if !s.contains(a) {
        assert(s.push(a)[s.len() as int] == a);
        assert(s.push(a).contains(a));
    }
}

/// Law (mint round trip): minting with metadata `m` stores exactly `m`
/// under the fresh identifier, so immediately reading that identifier's
/// metadata returns exactly `m`. Stated over the mint contract's post-state;
/// the metadata accessor returns `metas()[r]` verbatim.
pub proof fn lemma_mint_metadata_round_trip(
    pre: Contract,
    post: Contract,
    m: TokenMetadata,
    r: TokenId,
)
    requires
        pre.wf(),
        r == pre.next_token_id,
        post.metas() == pre.metas().push(m),
    ensures
        (r as int) < post.metas().len(),
        post.metas()[r as int] == m,
{
}

} // verus!

//! What the searches for hashes amount to.

use vstd::prelude::*;

use crate::block::Block;
use crate::eth::hash::{
    ascend, descend, hash_start, in_parent, parent_start, HashStepView, ParentStepView, Pending,
    RpcCompatibleHashView, RpcCompatibleParentHashView, RPC_COMPATIBLE_HASH_DERIVATION_LIMIT,
};
use crate::eth::queries::{
    answers_all, forced_parent, is_effect, only_caches_change, ChainPosition, EthQueryView, EthReply,
};
use crate::hashing::rpc_compatible_hash_of;
use crate::machine::{at, law_change_does_not_show, run, run_after, Run, Step};
use crate::node::Node;
use crate::primitives::H256;

verus! {

/// The effects of a search, all of them on the caches, and the hash that it finds.
#[verifier::ext_equal]
pub struct Found<N: Node> {
    pub cached: Seq<EthQueryView<N>>,
    pub hash: Option<H256>,
}

/// The hash that the mapping holds for the chain block.
pub open spec fn stored<N: Node>(
    node: spec_fn(EthQueryView<N>) -> EthReply<N>,
    hash: H256,
) -> Option<H256> {
    match node(EthQueryView::StoredHash(hash))->StoredHash_0 {
        Ok(compatible) => compatible,
        Err(_) => None,
    }
}

/// The hash that the cache holds for the chain block.
pub open spec fn cached<N: Node>(
    node: spec_fn(EthQueryView<N>) -> EthReply<N>,
    hash: H256,
) -> Option<H256> {
    node(EthQueryView::CachedHash(hash))->CachedHash_0
}

/// The place of the chain block in the chain.
pub open spec fn position<N: Node>(
    node: spec_fn(EthQueryView<N>) -> EthReply<N>,
    hash: H256,
) -> Option<ChainPosition> {
    match node(EthQueryView::Position(hash))->Position_0 {
        Ok(position) => position,
        Err(_) => None,
    }
}

/// The Ethereum block at the chain block.
pub open spec fn block<N: Node>(
    node: spec_fn(EthQueryView<N>) -> EthReply<N>,
    hash: H256,
) -> Option<Block<N::Transaction>> {
    node(EthQueryView::CurrentBlock(hash))->Block_0
}

/// The hash of a chain block whose parent has the given hash, after what was cached for the
/// blocks below it.
pub open spec fn hash_above<N: Node>(
    node: spec_fn(EthQueryView<N>) -> EthReply<N>,
    hash: H256,
    parent_hash: Option<H256>,
    below: Seq<EthQueryView<N>>,
) -> Found<N> {
    match block(node, hash) {
        None => Found { cached: below, hash: None },
        Some(block) => {
            let compatible = rpc_compatible_hash_of(block.header@, parent_hash);
            Found {
                cached: below.push(EthQueryView::CacheHash(hash, compatible)),
                hash: Some(compatible),
            }
        },
    }
}

/// The hash of a chain block, where at most `depth` blocks are gone through: the cached one, or
/// else the hash of its Ethereum block above the forced parent hash, above nothing for the genesis
/// block, or above the parent's own hash.
pub open spec fn derived<N: Node>(
    node: spec_fn(EthQueryView<N>) -> EthReply<N>,
    forced: Option<Map<H256, H256>>,
    hash: H256,
    depth: nat,
) -> Found<N>
    decreases depth,
{
    if cached(node, hash) is Some {
        Found { cached: Seq::empty(), hash: cached(node, hash) }
    } else if depth == 0 || position(node, hash) is None {
        Found { cached: Seq::empty(), hash: None }
    } else {
        let place = position(node, hash)->0;
        let parent = forced_parent(forced, hash);
        if place.number@ == 0 || parent is Some {
            hash_above(node, hash, parent, Seq::empty())
        } else {
            let below = derived(node, forced, place.parent_hash, (depth - 1) as nat);
            if below.hash is Some {
                hash_above(node, hash, below.hash, below.cached)
            } else {
                below
            }
        }
    }
}

/// The hash under which Ethereum clients know the chain block: the one that the mapping holds, or
/// else the one that is derived.
pub open spec fn hash_of<N: Node>(
    node: spec_fn(EthQueryView<N>) -> EthReply<N>,
    forced: Option<Map<H256, H256>>,
    hash: H256,
) -> Found<N> {
    match stored(node, hash) {
        Some(compatible) => Found {
            cached: seq![EthQueryView::CacheHash(hash, compatible)],
            hash: Some(compatible),
        },
        None => derived(node, forced, hash, RPC_COMPATIBLE_HASH_DERIVATION_LIMIT as nat),
    }
}

/// The hash under which Ethereum clients know the parent of the chain block: the forced one; none
/// for the genesis block; or else that of the parent.
pub open spec fn parent_hash_of<N: Node>(
    node: spec_fn(EthQueryView<N>) -> EthReply<N>,
    forced: Option<Map<H256, H256>>,
    hash: H256,
) -> Found<N> {
    match (forced_parent(forced, hash), position(node, hash)) {
        (Some(parent_hash), _) => Found { cached: Seq::empty(), hash: Some(parent_hash) },
        (None, Some(place)) => if place.number@ == 0 {
            Found { cached: Seq::empty(), hash: None }
        } else {
            hash_of(node, forced, place.parent_hash)
        },
        _ => Found { cached: Seq::empty(), hash: None },
    }
}

/// The whole search for the hash of a chain block.
pub open spec fn hash_run<N: Node>(
    node: spec_fn(EthQueryView<N>) -> EthReply<N>,
    forced: Option<Map<H256, H256>>,
    step: HashStepView<N>,
    fuel: nat,
) -> Run<EthQueryView<N>, Option<H256>> {
    run(
        |state: RpcCompatibleHashView, reply: EthReply<N>| state.next(forced, reply),
        |query: EthQueryView<N>| is_effect(query),
        node,
        step,
        fuel,
    )
}

/// What is still to be done for the blocks in the stack, the lowest of which has a parent with the
/// given hash.
spec fn climbed<N: Node>(
    node: spec_fn(EthQueryView<N>) -> EthReply<N>,
    stack: Seq<Pending>,
    parent_hash: Option<H256>,
) -> Found<N>
    decreases stack.len(),
{
    if stack.len() == 0 {
        Found { cached: Seq::empty(), hash: parent_hash }
    } else {
        let (ancestor, forced) = stack.last();
        let parent_hash = if forced is Some {
            forced
        } else {
            parent_hash
        };
        match block(node, ancestor) {
            None => Found { cached: Seq::empty(), hash: None },
            Some(block) => {
                let compatible = rpc_compatible_hash_of(block.header@, parent_hash);
                let above = climbed(node, stack.drop_last(), Some(compatible));
                Found {
                    cached: seq![EthQueryView::CacheHash(ancestor, compatible)] + above.cached,
                    hash: above.hash,
                }
            },
        }
    }
}

/// What follows below, and then for the blocks in the stack.
spec fn followed_by<N: Node>(
    node: spec_fn(EthQueryView<N>) -> EthReply<N>,
    below: Found<N>,
    stack: Seq<Pending>,
) -> Found<N> {
    if below.hash is Some {
        let above = climbed(node, stack, below.hash);
        Found { cached: below.cached + above.cached, hash: above.hash }
    } else {
        below
    }
}

proof fn lemma_ascend<N: Node>(
    node: spec_fn(EthQueryView<N>) -> EthReply<N>,
    forced: Option<Map<H256, H256>>,
    stack: Seq<Pending>,
    parent_hash: Option<H256>,
    fuel: nat,
)
    requires
        answers_all(node),
        fuel >= 2 * stack.len(),
    ensures
        ({
            let found = climbed(node, stack, parent_hash);
            let whole = hash_run(node, forced, ascend::<N>(stack, parent_hash), fuel);
            whole.effects == found.cached && whole.outcome == Some(found.hash)
        }),
    decreases stack.len(),
{
    reveal_with_fuel(run, 3);
    if stack.len() > 0 {
        let (ancestor, own) = stack.last();
        let parent_hash = if own is Some {
            own
        } else {
            parent_hash
        };
        if let Some(block) = block(node, ancestor) {
            let compatible = rpc_compatible_hash_of(block.header@, parent_hash);
            lemma_ascend(
                node,
                forced,
                stack.drop_last(),
                Some(compatible),
                (fuel - 2) as nat,
            );
        }
    }
}

proof fn lemma_descend<N: Node>(
    node: spec_fn(EthQueryView<N>) -> EthReply<N>,
    forced: Option<Map<H256, H256>>,
    cursor: H256,
    stack: Seq<Pending>,
    fuel: nat,
)
    requires
        answers_all(node),
        stack.len() <= RPC_COMPATIBLE_HASH_DERIVATION_LIMIT,
        fuel >= 4 * (RPC_COMPATIBLE_HASH_DERIVATION_LIMIT - stack.len()) + 2 * stack.len() + 2,
    ensures
        ({
            let depth = (RPC_COMPATIBLE_HASH_DERIVATION_LIMIT - stack.len()) as nat;
            let found = followed_by(node, derived(node, forced, cursor, depth), stack);
            let whole = hash_run(node, forced, descend::<N>(cursor, stack), fuel);
            whole.effects == found.cached && whole.outcome == Some(found.hash)
        }),
    decreases RPC_COMPATIBLE_HASH_DERIVATION_LIMIT - stack.len(),
{
    reveal_with_fuel(run, 3);
    let depth = (RPC_COMPATIBLE_HASH_DERIVATION_LIMIT - stack.len()) as nat;
    let own = derived(node, forced, cursor, depth);
    if let Some(compatible) = cached(node, cursor) {
        lemma_ascend(node, forced, stack, Some(compatible), (fuel - 1) as nat);
        let above = climbed(node, stack, Some(compatible));
        assert(own.cached + above.cached =~= above.cached);
    } else if depth > 0 && position(node, cursor) is Some {
        let place = position(node, cursor)->0;
        let parent = forced_parent(forced, cursor);
        let longer = stack.push((cursor, parent));
        assert(longer.drop_last() =~= stack);
        if place.number@ == 0 || parent is Some {
            lemma_ascend(node, forced, longer, parent, (fuel - 2) as nat);
            lemma_ascend(node, forced, longer, None, (fuel - 2) as nat);
            if let Some(block) = block(node, cursor) {
                let compatible = rpc_compatible_hash_of(block.header@, parent);
                let above = climbed(node, stack, Some(compatible));
                assert(own.cached + above.cached =~= seq![
                    EthQueryView::CacheHash(cursor, compatible),
                ] + above.cached);
            }
        } else {
            lemma_descend(node, forced, place.parent_hash, longer, (fuel - 2) as nat);
            let below = derived(node, forced, place.parent_hash, (depth - 1) as nat);
            if below.hash is Some {
                if let Some(block) = block(node, cursor) {
                    let compatible = rpc_compatible_hash_of(block.header@, below.hash);
                    let above = climbed(node, stack, Some(compatible));
                    assert(own.cached + above.cached =~= below.cached + (seq![
                        EthQueryView::CacheHash(cursor, compatible),
                    ] + above.cached));
                } else {
                    assert(own.cached =~= below.cached);
                }
            }
        }
    }
}

/// A number of queries that the search for a hash does not exceed.
pub open spec fn hash_bound() -> nat {
    (4 * RPC_COMPATIBLE_HASH_DERIVATION_LIMIT + 3) as nat
}

/// What the search amounts to on a node that stays as it is.
proof fn lemma_steady_hash_search<N: Node>(
    node: spec_fn(EthQueryView<N>) -> EthReply<N>,
    forced: Option<Map<H256, H256>>,
    hash: H256,
    fuel: nat,
)
    requires
        answers_all(node),
        fuel >= hash_bound(),
    ensures
        hash_run(node, forced, hash_start::<N>(hash), fuel).effects == hash_of(
            node,
            forced,
            hash,
        ).cached,
        hash_run(node, forced, hash_start::<N>(hash), fuel).outcome == Some(
            hash_of(node, forced, hash).hash,
        ),
{
    reveal_with_fuel(run, 3);
    if stored(node, hash) is None {
        lemma_descend(node, forced, hash, Seq::empty(), (fuel - 1) as nat);
        let own = derived(node, forced, hash, RPC_COMPATIBLE_HASH_DERIVATION_LIMIT as nat);
        let above = climbed(node, Seq::empty(), own.hash);
        assert(own.cached + above.cached =~= own.cached);
    }
}

/// The whole search for the hash of a parent.
pub open spec fn parent_run<N: Node>(
    node: spec_fn(EthQueryView<N>) -> EthReply<N>,
    forced: Option<Map<H256, H256>>,
    step: ParentStepView<N>,
    fuel: nat,
) -> Run<EthQueryView<N>, Option<H256>> {
    run(
        |state: RpcCompatibleParentHashView, reply: EthReply<N>| state.next(forced, reply),
        |query: EthQueryView<N>| is_effect(query),
        node,
        step,
        fuel,
    )
}

proof fn lemma_in_parent<N: Node>(
    node: spec_fn(EthQueryView<N>) -> EthReply<N>,
    forced: Option<Map<H256, H256>>,
    step: HashStepView<N>,
    fuel: nat,
)
    ensures
        parent_run(node, forced, in_parent(step), fuel) == hash_run(node, forced, step, fuel),
    decreases fuel,
{
    if let Step::Ask(state, query) = step {
        if fuel > 0 {
            lemma_in_parent(node, forced, state.next(forced, node(query)), (fuel - 1) as nat);
        }
    }
}

/// What the search for the hash of a parent amounts to on a node that stays as it is.
proof fn lemma_steady_parent_search<N: Node>(
    node: spec_fn(EthQueryView<N>) -> EthReply<N>,
    forced: Option<Map<H256, H256>>,
    hash: H256,
    fuel: nat,
)
    requires
        answers_all(node),
        fuel >= hash_bound() + 1,
    ensures
        parent_run(node, forced, parent_start::<N>(forced, hash), fuel).effects == parent_hash_of(
            node,
            forced,
            hash,
        ).cached,
        parent_run(node, forced, parent_start::<N>(forced, hash), fuel).outcome == Some(
            parent_hash_of(node, forced, hash).hash,
        ),
{
    reveal_with_fuel(run, 2);
    if let Some(place) = position(node, hash) {
        let start = hash_start::<N>(place.parent_hash);
        lemma_in_parent(node, forced, start, (fuel - 1) as nat);
        lemma_steady_hash_search(node, forced, place.parent_hash, (fuel - 1) as nat);
    }
}

/// The search asks the query in a state before it has cached anything.
spec fn is_early<N: Node>(state: RpcCompatibleHashView, query: EthQueryView<N>) -> bool {
    match state {
        RpcCompatibleHashView::Stored { .. } => query is StoredHash,
        RpcCompatibleHashView::Cached { .. } => query is CachedHash,
        RpcCompatibleHashView::Position { .. } => query is Position,
        _ => false,
    }
}

/// The search asks the query in a state in which it no longer reads the cache.
spec fn is_late<N: Node>(state: RpcCompatibleHashView, query: EthQueryView<N>) -> bool {
    match state {
        RpcCompatibleHashView::StoredCached { .. } => query is CacheHash,
        RpcCompatibleHashView::Block { .. } => query is CurrentBlock,
        RpcCompatibleHashView::DerivedCached { .. } => query is CacheHash,
        _ => false,
    }
}

/// The whole search for the hash of a chain block, on a node whose caches change.
pub open spec fn hash_run_after<N: Node>(
    node: spec_fn(Seq<EthQueryView<N>>, EthQueryView<N>) -> EthReply<N>,
    past: Seq<EthQueryView<N>>,
    forced: Option<Map<H256, H256>>,
    step: HashStepView<N>,
    fuel: nat,
) -> Run<EthQueryView<N>, Option<H256>> {
    run_after(
        |state: RpcCompatibleHashView, reply: EthReply<N>| state.next(forced, reply),
        |query: EthQueryView<N>| is_effect(query),
        node,
        past,
        step,
        fuel,
    )
}

/// The search comes to its end within a fixed number of queries, and finds the hash that `hash_of`
/// says for the node as it is at the start, though it goes down the chain and up again step by
/// step, and changes the caches meanwhile. Each hash that it works out on the way is cached, the
/// lowest block first, and nothing else is done.
pub proof fn law_rpc_compatible_hash<N: Node>(
    node: spec_fn(Seq<EthQueryView<N>>, EthQueryView<N>) -> EthReply<N>,
    past: Seq<EthQueryView<N>>,
    forced: Option<Map<H256, H256>>,
    hash: H256,
    fuel: nat,
)
    requires
        only_caches_change(node),
        fuel >= hash_bound(),
    ensures
        hash_run_after(node, past, forced, hash_start::<N>(hash), fuel).effects == hash_of(
            at(node, past),
            forced,
            hash,
        ).cached,
        hash_run_after(node, past, forced, hash_start::<N>(hash), fuel).outcome == Some(
            hash_of(at(node, past), forced, hash).hash,
        ),
{
    lemma_steady_hash_search(at(node, past), forced, hash, fuel);
    law_change_does_not_show(
        |state: RpcCompatibleHashView, reply: EthReply<N>| state.next(forced, reply),
        |query: EthQueryView<N>| is_effect(query),
        node,
        |state: RpcCompatibleHashView, query: EthQueryView<N>| is_early(state, query),
        |state: RpcCompatibleHashView, query: EthQueryView<N>| is_late(state, query),
        past,
        past,
        hash_start::<N>(hash),
        fuel,
    );
}

/// The search for the hash of a parent asks the query before it has cached anything.
spec fn is_early_in_parent<N: Node>(
    state: RpcCompatibleParentHashView,
    query: EthQueryView<N>,
) -> bool {
    match state {
        RpcCompatibleParentHashView::Position => query is Position,
        RpcCompatibleParentHashView::Parent { search } => is_early(search, query),
    }
}

/// The search for the hash of a parent asks the query when it no longer reads the cache.
spec fn is_late_in_parent<N: Node>(
    state: RpcCompatibleParentHashView,
    query: EthQueryView<N>,
) -> bool {
    match state {
        RpcCompatibleParentHashView::Position => false,
        RpcCompatibleParentHashView::Parent { search } => is_late(search, query),
    }
}

/// The whole search for the hash of a parent, on a node whose caches change.
pub open spec fn parent_run_after<N: Node>(
    node: spec_fn(Seq<EthQueryView<N>>, EthQueryView<N>) -> EthReply<N>,
    past: Seq<EthQueryView<N>>,
    forced: Option<Map<H256, H256>>,
    step: ParentStepView<N>,
    fuel: nat,
) -> Run<EthQueryView<N>, Option<H256>> {
    run_after(
        |state: RpcCompatibleParentHashView, reply: EthReply<N>| state.next(forced, reply),
        |query: EthQueryView<N>| is_effect(query),
        node,
        past,
        step,
        fuel,
    )
}

/// The search for the hash of a parent comes to its end, and finds what `parent_hash_of` says for
/// the node as it is at the start, though the search changes the caches meanwhile.
pub proof fn law_rpc_compatible_parent_hash<N: Node>(
    node: spec_fn(Seq<EthQueryView<N>>, EthQueryView<N>) -> EthReply<N>,
    past: Seq<EthQueryView<N>>,
    forced: Option<Map<H256, H256>>,
    hash: H256,
    fuel: nat,
)
    requires
        only_caches_change(node),
        fuel >= hash_bound() + 1,
    ensures
        parent_run_after(node, past, forced, parent_start::<N>(forced, hash), fuel).effects
            == parent_hash_of(at(node, past), forced, hash).cached,
        parent_run_after(node, past, forced, parent_start::<N>(forced, hash), fuel).outcome
            == Some(parent_hash_of(at(node, past), forced, hash).hash),
{
    lemma_steady_parent_search(at(node, past), forced, hash, fuel);
    law_change_does_not_show(
        |state: RpcCompatibleParentHashView, reply: EthReply<N>| state.next(forced, reply),
        |query: EthQueryView<N>| is_effect(query),
        node,
        |state: RpcCompatibleParentHashView, query: EthQueryView<N>|
            is_early_in_parent(state, query),
        |state: RpcCompatibleParentHashView, query: EthQueryView<N>|
            is_late_in_parent(state, query),
        past,
        past,
        parent_start::<N>(forced, hash),
        fuel,
    );
}

/// A hash that is found is in the cache afterwards: it was there, or the last thing done is to
/// cache it.
pub proof fn law_found_hash_is_cached<N: Node>(
    node: spec_fn(EthQueryView<N>) -> EthReply<N>,
    forced: Option<Map<H256, H256>>,
    hash: H256,
)
    requires
        hash_of(node, forced, hash).hash is Some,
    ensures
        ({
            let found = hash_of(node, forced, hash);
            ||| found.cached.len() > 0 && found.cached.last() == EthQueryView::<N>::CacheHash(
                hash,
                found.hash->0,
            )
            ||| found.cached.len() == 0 && cached(node, hash) == found.hash
        }),
{
}

/// A hash that was derived once is found again, though the place and the block that it was derived
/// from can no longer be read, as long as it is in the cache and the mapping holds no other.
pub proof fn law_cached_hash_is_found_again<N: Node>(
    node: spec_fn(EthQueryView<N>) -> EthReply<N>,
    later: spec_fn(EthQueryView<N>) -> EthReply<N>,
    forced: Option<Map<H256, H256>>,
    hash: H256,
)
    requires
        hash_of(node, forced, hash).hash is Some,
        cached(later, hash) == hash_of(node, forced, hash).hash,
        stored(later, hash) is None,
    ensures
        hash_of(later, forced, hash).hash == hash_of(node, forced, hash).hash,
        hash_of(later, forced, hash).cached.len() == 0,
{
}

/// Being allowed to go deeper does not change a hash that is found.
pub proof fn law_derived_hash_is_settled<N: Node>(
    node: spec_fn(EthQueryView<N>) -> EthReply<N>,
    forced: Option<Map<H256, H256>>,
    hash: H256,
    depth: nat,
    deeper: nat,
)
    requires
        derived(node, forced, hash, depth).hash is Some,
        depth <= deeper,
    ensures
        derived(node, forced, hash, deeper) == derived(node, forced, hash, depth),
    decreases depth,
{
    if cached(node, hash) is None {
        let place = position(node, hash)->0;
        if place.number@ != 0 && forced_parent(forced, hash) is None {
            law_derived_hash_is_settled(
                node,
                forced,
                place.parent_hash,
                (depth - 1) as nat,
                (deeper - 1) as nat,
            );
        }
    }
}

/// The hash that is worked out for a chain block commits to the hash that clients are shown as
/// that of its parent: it is the hash of the block's header with that parent in it. For the parent
/// itself the mapping must hold nothing, since what it holds there takes precedence when the
/// parent is asked for and is not looked at when the block is.
pub proof fn law_derived_hash_commits_to_parent_hash<N: Node>(
    node: spec_fn(EthQueryView<N>) -> EthReply<N>,
    forced: Option<Map<H256, H256>>,
    hash: H256,
)
    requires
        stored(node, hash) is None,
        cached(node, hash) is None,
        hash_of(node, forced, hash).hash is Some,
        position(node, hash) matches Some(place) ==> stored(node, place.parent_hash) is None,
    ensures
        block(node, hash) is Some,
        hash_of(node, forced, hash).hash == Some(
            rpc_compatible_hash_of(
                block(node, hash)->0.header@,
                parent_hash_of(node, forced, hash).hash,
            ),
        ),
{
    let limit = RPC_COMPATIBLE_HASH_DERIVATION_LIMIT as nat;
    let place = position(node, hash)->0;
    if place.number@ != 0 && forced_parent(forced, hash) is None {
        let below = derived(node, forced, place.parent_hash, (limit - 1) as nat);
        assert(below.hash is Some);
        law_derived_hash_is_settled(
            node,
            forced,
            place.parent_hash,
            (limit - 1) as nat,
            limit,
        );
    }
}

} // verus!

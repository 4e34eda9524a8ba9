//! That a block is shown as a link of a chain.

use vstd::prelude::*;

use crate::eth::cache::{caches_after, CachesView};
use crate::eth::hash::RPC_COMPATIBLE_HASH_DERIVATION_LIMIT;
use crate::eth::hash_laws::{
    block, cached, derived, hash_of, law_derived_hash_is_settled, law_found_hash_is_cached,
    parent_hash_of, position, stored,
};
use crate::eth::queries::{forced_parent, only_caches_change, EthQueryView, EthReply};
use crate::eth::rich::{built, Material, RichBlockView};
use crate::hashing::rpc_compatible_hash_of;
use crate::machine::at;
use crate::node::Node;
use crate::primitives::H256;

verus! {

/// A hash that is cached is in the cache then, and what was there before for another block is
/// there still, or is gone, as it is where a full cache was emptied first.
pub open spec fn caches_hold<N: Node>(
    node: spec_fn(Seq<EthQueryView<N>>, EthQueryView<N>) -> EthReply<N>,
) -> bool {
    forall|past: Seq<EthQueryView<N>>, hash: H256, compatible: H256, other: H256|
        #![trigger cached(at(node, past.push(EthQueryView::CacheHash(hash, compatible))), other)]
        {
            let then = at(node, past.push(EthQueryView::CacheHash(hash, compatible)));
            if other == hash {
                cached(then, other) == Some(compatible)
            } else {
                cached(then, other) is None || cached(then, other) == cached(at(node, past), other)
            }
        }
}

/// The node's answers from the cache are those of caches that held `caches` at first.
pub open spec fn reads_caches<N: Node>(
    node: spec_fn(Seq<EthQueryView<N>>, EthQueryView<N>) -> EthReply<N>,
    caches: CachesView,
) -> bool {
    forall|past: Seq<EthQueryView<N>>, hash: H256|
        #![trigger cached(at(node, past), hash)]
        cached(at(node, past), hash) == {
            let cache = caches_after(caches, past).cache;
            if cache.dom().contains(hash) {
                Some(cache[hash])
            } else {
                None
            }
        }
}

/// The caches as they are kept hold what is cached.
pub proof fn law_kept_caches_hold<N: Node>(
    node: spec_fn(Seq<EthQueryView<N>>, EthQueryView<N>) -> EthReply<N>,
    caches: CachesView,
)
    requires
        reads_caches(node, caches),
    ensures
        caches_hold(node),
{
    assert forall|past: Seq<EthQueryView<N>>, hash: H256, compatible: H256, other: H256|
        #![trigger cached(at(node, past.push(EthQueryView::CacheHash(hash, compatible))), other)]
        {
            let then = at(node, past.push(EthQueryView::CacheHash(hash, compatible)));
            if other == hash {
                cached(then, other) == Some(compatible)
            } else {
                cached(then, other) is None || cached(then, other) == cached(at(node, past), other)
            }
        } by {
        let longer = past.push(EthQueryView::<N>::CacheHash(hash, compatible));
        assert(longer.drop_last() =~= past);
        assert(cached(at(node, past), other) == cached(at(node, past), other));
    }
}

/// The query caches a hash for the chain block.
pub open spec fn caches_for<N: Node>(query: EthQueryView<N>, hash: H256) -> bool {
    query matches EthQueryView::CacheHash(key, _) && key == hash
}

/// One of the queries caches a hash for the chain block.
pub open spec fn some_caches_for<N: Node>(queries: Seq<EthQueryView<N>>, hash: H256) -> bool {
    exists|i: int| 0 <= i < queries.len() && caches_for(#[trigger] queries[i], hash)
}

/// All that the queries do is to cache hashes.
pub open spec fn all_cache<N: Node>(queries: Seq<EthQueryView<N>>) -> bool {
    forall|i: int| 0 <= i < queries.len() ==> (#[trigger] queries[i]) is CacheHash
}

/// For a block of which nothing was cached, the cache holds what it held, or nothing.
proof fn lemma_others_are_held<N: Node>(
    node: spec_fn(Seq<EthQueryView<N>>, EthQueryView<N>) -> EthReply<N>,
    past: Seq<EthQueryView<N>>,
    queries: Seq<EthQueryView<N>>,
    hash: H256,
)
    requires
        caches_hold(node),
        all_cache(queries),
        !some_caches_for(queries, hash),
    ensures
        cached(at(node, past + queries), hash) is None || cached(at(node, past + queries), hash)
            == cached(at(node, past), hash),
    decreases queries.len(),
{
    if queries.len() == 0 {
        assert(past + queries =~= past);
    } else {
        let before = queries.drop_last();
        assert forall|i: int| 0 <= i < before.len() implies !caches_for(
            #[trigger] before[i],
            hash,
        ) by {
            assert(queries[i] == before[i]);
        }
        lemma_others_are_held(node, past, before, hash);
        assert(past + queries =~= (past + before).push(queries.last()));
        assert(!caches_for(queries[queries.len() - 1], hash));
        let (key, compatible) = (queries.last()->CacheHash_0, queries.last()->CacheHash_1);
        assert(queries.last() == EthQueryView::<N>::CacheHash(key, compatible));
        let then = at(node, (past + before).push(EthQueryView::CacheHash(key, compatible)));
        assert(cached(then, hash) is None || cached(then, hash) == cached(
            at(node, past + before),
            hash,
        ));
    }
}

/// What a search caches is, for each block, a hash that is found for it from no greater depth.
proof fn lemma_cached_was_found<N: Node>(
    node: spec_fn(EthQueryView<N>) -> EthReply<N>,
    forced: Option<Map<H256, H256>>,
    hash: H256,
    depth: nat,
    key: H256,
)
    ensures
        all_cache(derived(node, forced, hash, depth).cached),
        some_caches_for(derived(node, forced, hash, depth).cached, key) ==> derived(
            node,
            forced,
            key,
            depth,
        ).hash is Some,
    decreases depth,
{
    let found = derived(node, forced, hash, depth);
    if cached(node, hash) is None && depth > 0 && position(node, hash) is Some {
        let place = position(node, hash)->0;
        let parent = forced_parent(forced, hash);
        if !(place.number@ == 0 || parent is Some) {
            let below = derived(node, forced, place.parent_hash, (depth - 1) as nat);
            lemma_cached_was_found(node, forced, place.parent_hash, (depth - 1) as nat, key);
            if derived(node, forced, key, (depth - 1) as nat).hash is Some {
                law_derived_hash_is_settled(node, forced, key, (depth - 1) as nat, depth);
            }
            if some_caches_for(found.cached, key) {
                let i = choose|i: int|
                    0 <= i < found.cached.len() && caches_for(#[trigger] found.cached[i], key);
                if i < below.cached.len() {
                    assert(below.cached[i] == found.cached[i]);
                    assert(some_caches_for(below.cached, key));
                }
            }
        }
    }
}

/// A hash that is not found is not found in the caches that the search for it leaves either.
proof fn lemma_not_found_again<N: Node>(
    node: spec_fn(Seq<EthQueryView<N>>, EthQueryView<N>) -> EthReply<N>,
    past: Seq<EthQueryView<N>>,
    queries: Seq<EthQueryView<N>>,
    forced: Option<Map<H256, H256>>,
    hash: H256,
    depth: nat,
    less: nat,
)
    requires
        only_caches_change(node),
        caches_hold(node),
        derived(at(node, past), forced, hash, depth).hash is None,
        derived(at(node, past), forced, hash, depth).cached == queries,
        less <= depth,
    ensures
        derived(at(node, past + queries), forced, hash, less).hash is None,
    decreases depth,
{
    let first = at(node, past);
    let later = at(node, past + queries);
    lemma_cached_was_found(first, forced, hash, depth, hash);
    assert(!some_caches_for(queries, hash));
    lemma_others_are_held(node, past, queries, hash);
    assert(cached(later, hash) is None);
    assert(position(later, hash) == position(first, hash));
    assert(block(later, hash) == block(first, hash));
    if less > 0 && position(first, hash) is Some {
        let place = position(first, hash)->0;
        if !(place.number@ == 0 || forced_parent(forced, hash) is Some) {
            let below = derived(first, forced, place.parent_hash, (depth - 1) as nat);
            if below.hash is None {
                lemma_not_found_again(
                    node,
                    past,
                    queries,
                    forced,
                    place.parent_hash,
                    (depth - 1) as nat,
                    (less - 1) as nat,
                );
            }
        }
    }
}

/// A block is shown as a link of a chain: its hash is that of its header with the parent in it
/// that is shown, though the search for the parent changes the cache before the block's own hash
/// is searched for. This is of a block whose hash is worked out; where a hash comes from the
/// mapping, or the block's own from the cache, it is shown as it was put there.
pub proof fn law_shown_block_links_to_shown_parent<N: Node>(
    node: spec_fn(Seq<EthQueryView<N>>, EthQueryView<N>) -> EthReply<N>,
    past: Seq<EthQueryView<N>>,
    forced: Option<Map<H256, H256>>,
    material: Material<N>,
)
    requires
        only_caches_change(node),
        caches_hold(node),
        block(at(node, past), material.chain_hash) == Some(material.block),
        stored(at(node, past), material.chain_hash) is None,
        position(at(node, past), material.chain_hash) matches Some(place) ==> stored(
            at(node, past),
            place.parent_hash,
        ) is None,
        ({
            let parent = parent_hash_of(at(node, past), forced, material.chain_hash);
            let later = at(node, past + parent.cached);
            &&& cached(later, material.chain_hash) is None
            &&& hash_of(later, forced, material.chain_hash).hash is Some
        }),
    ensures
        built(node, past, forced, material).outcome matches Some(
            RichBlockView::WithParentHash(parts, parent_hash),
        ) && parts.hash == Some(rpc_compatible_hash_of(material.block.header@, parent_hash))
            && parent_hash == parent_hash_of(at(node, past), forced, material.chain_hash).hash,
{
    let hash = material.chain_hash;
    let limit = RPC_COMPATIBLE_HASH_DERIVATION_LIMIT as nat;
    let first = at(node, past);
    let parent = parent_hash_of(first, forced, hash);
    let later = at(node, past + parent.cached);
    assert(stored(later, hash) == stored(first, hash));
    assert(position(later, hash) == position(first, hash));
    assert(block(later, hash) == block(first, hash));
    let place = position(first, hash)->0;
    if forced_parent(forced, hash) is None && place.number@ != 0 {
        let up = place.parent_hash;
        assert(parent == derived(first, forced, up, limit));
        if parent.hash is None {
            lemma_not_found_again(
                node,
                past,
                parent.cached,
                forced,
                up,
                limit,
                (limit - 1) as nat,
            );
        } else {
            law_found_hash_is_cached(first, forced, up);
            if parent.cached.len() > 0 {
                let before = past + parent.cached.drop_last();
                assert(past + parent.cached =~= before.push(parent.cached.last()));
                let then = at(node, before.push(EthQueryView::CacheHash(up, parent.hash->0)));
                assert(cached(then, up) == parent.hash);
            } else {
                assert(past + parent.cached =~= past);
            }
            assert(cached(later, up) == parent.hash);
        }
        let below = derived(later, forced, up, (limit - 1) as nat);
        assert(below.hash == parent.hash);
    }
    let own = derived(later, forced, hash, limit);
    assert(hash_of(later, forced, hash) == own);
    assert(own.hash == Some(rpc_compatible_hash_of(material.block.header@, parent.hash)));
}

} // verus!

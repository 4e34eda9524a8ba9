//! That a block is answered alike under each of its hashes.

use vstd::prelude::*;

use crate::eth::by_hash::{answer_by_hash, material_of};
use crate::eth::cache::{caches_after, CachesView, RPC_COMPATIBLE_HASH_CACHE_LIMIT};
use crate::eth::find::found_info;
use crate::eth::hash::RPC_COMPATIBLE_HASH_DERIVATION_LIMIT;
use crate::eth::hash_laws::{block, cached, derived, hash_of, parent_hash_of, position, stored};
use crate::eth::info::info_of;
use crate::eth::links::{all_cache, caches_for, reads_caches, some_caches_for};
use crate::eth::queries::{
    forced_parent, only_caches_change, BlockInfo, EthQueryView, EthReply, RpcErrorView,
};
use crate::eth::rich::{built, RichBlockView};
use crate::machine::at;
use crate::node::Node;
use crate::primitives::H256;

verus! {

/// There is room for so many hashes in the caches: a hash that is cached next, or after less than
/// so many others, is in the cache then, and so is what was there before for other blocks.
pub open spec fn caches_keep<N: Node>(
    node: spec_fn(Seq<EthQueryView<N>>, EthQueryView<N>) -> EthReply<N>,
    past: Seq<EthQueryView<N>>,
    room: nat,
) -> bool {
    forall|
        queries: Seq<EthQueryView<N>>,
        hash: H256,
        compatible: H256,
        other: H256,
    |
        #![trigger cached(
            at(node, (past + queries).push(EthQueryView::CacheHash(hash, compatible))),
            other,
        )]
        all_cache(queries) && queries.len() < room ==> {
            let then = at(node, (past + queries).push(EthQueryView::CacheHash(hash, compatible)));
            cached(then, other) == if other == hash {
                Some(compatible)
            } else {
                cached(at(node, past + queries), other)
            }
        }
}

proof fn lemma_caches_grow<N: Node>(caches: CachesView, queries: Seq<EthQueryView<N>>)
    requires
        all_cache(queries),
        caches.cache.dom().finite(),
        caches.reverse_cache.dom().finite(),
        caches.cache.len() + queries.len() <= RPC_COMPATIBLE_HASH_CACHE_LIMIT,
        caches.reverse_cache.len() + queries.len() <= RPC_COMPATIBLE_HASH_CACHE_LIMIT,
    ensures
        ({
            let after = caches_after(caches, queries);
            &&& after.cache.dom().finite()
            &&& after.reverse_cache.dom().finite()
            &&& after.cache.len() <= caches.cache.len() + queries.len()
            &&& after.reverse_cache.len() <= caches.reverse_cache.len() + queries.len()
        }),
    decreases queries.len(),
{
    if queries.len() > 0 {
        assert(queries.last() is CacheHash);
        lemma_caches_grow(caches, queries.drop_last());
    }
}

proof fn lemma_caches_after_both<N: Node>(
    caches: CachesView,
    past: Seq<EthQueryView<N>>,
    queries: Seq<EthQueryView<N>>,
)
    ensures
        caches_after(caches, past + queries) == caches_after(caches_after(caches, past), queries),
    decreases queries.len(),
{
    if queries.len() == 0 {
        assert(past + queries =~= past);
    } else {
        lemma_caches_after_both(caches, past, queries.drop_last());
        assert((past + queries).drop_last() =~= past + queries.drop_last());
    }
}

/// The caches as they are kept have room up to their limit.
pub proof fn law_caches_have_room<N: Node>(
    node: spec_fn(Seq<EthQueryView<N>>, EthQueryView<N>) -> EthReply<N>,
    caches: CachesView,
    past: Seq<EthQueryView<N>>,
    room: nat,
)
    requires
        reads_caches(node, caches),
        caches_after(caches, past).cache.dom().finite(),
        caches_after(caches, past).reverse_cache.dom().finite(),
        caches_after(caches, past).cache.len() + room <= RPC_COMPATIBLE_HASH_CACHE_LIMIT,
        caches_after(caches, past).reverse_cache.len() + room <= RPC_COMPATIBLE_HASH_CACHE_LIMIT,
    ensures
        caches_keep(node, past, room),
{
    assert forall|
        queries: Seq<EthQueryView<N>>,
        hash: H256,
        compatible: H256,
        other: H256,
    |
        #![trigger cached(
            at(node, (past + queries).push(EthQueryView::CacheHash(hash, compatible))),
            other,
        )]
        all_cache(queries) && queries.len() < room implies {
        let then = at(node, (past + queries).push(EthQueryView::CacheHash(hash, compatible)));
        cached(then, other) == if other == hash {
            Some(compatible)
        } else {
            cached(at(node, past + queries), other)
        }
    } by {
        let longer = (past + queries).push(EthQueryView::<N>::CacheHash(hash, compatible));
        assert(longer.drop_last() =~= past + queries);
        lemma_caches_after_both(caches, past, queries);
        lemma_caches_grow(caches_after(caches, past), queries);
        assert(cached(at(node, past + queries), other) == cached(
            at(node, past + queries),
            other,
        ));
    }
}

/// Every block stands above its parent.
pub open spec fn parents_are_below<N: Node>(
    node: spec_fn(EthQueryView<N>) -> EthReply<N>,
) -> bool {
    forall|hash: H256|
        (#[trigger] position(node, hash)) matches Some(place) ==> place.number@ != 0 ==> (position(
            node,
            place.parent_hash,
        ) matches Some(parent) ==> parent.number@ < place.number@)
}

/// Where nothing was cached for a block, the cache holds for it what it held.
proof fn lemma_others_are_kept<N: Node>(
    node: spec_fn(Seq<EthQueryView<N>>, EthQueryView<N>) -> EthReply<N>,
    past: Seq<EthQueryView<N>>,
    queries: Seq<EthQueryView<N>>,
    room: nat,
    hash: H256,
)
    requires
        caches_keep(node, past, room),
        queries.len() <= room,
        all_cache(queries),
        !some_caches_for(queries, hash),
    ensures
        cached(at(node, past + queries), hash) == cached(at(node, past), hash),
    decreases queries.len(),
{
    if queries.len() == 0 {
        assert(past + queries =~= past);
    } else {
        let before = queries.drop_last();
        assert forall|i: int| 0 <= i < before.len() implies !caches_for(
            #[trigger] before[i],
            hash,
        ) by {
            assert(queries[i] == before[i]);
        }
        lemma_others_are_kept(node, past, before, room, hash);
        assert(past + queries =~= (past + before).push(queries.last()));
        assert(!caches_for(queries[queries.len() - 1], hash));
        let (key, compatible) = (queries.last()->CacheHash_0, queries.last()->CacheHash_1);
        assert(queries.last() == EthQueryView::<N>::CacheHash(key, compatible));
        let then = at(node, (past + before).push(EthQueryView::CacheHash(key, compatible)));
        assert(cached(then, hash) == cached(at(node, past + before), hash));
    }
}

/// What is cached uses up room.
proof fn lemma_room_is_left<N: Node>(
    node: spec_fn(Seq<EthQueryView<N>>, EthQueryView<N>) -> EthReply<N>,
    past: Seq<EthQueryView<N>>,
    used: Seq<EthQueryView<N>>,
    room: nat,
)
    requires
        caches_keep(node, past, room),
        all_cache(used),
        used.len() <= room,
    ensures
        caches_keep(node, past + used, (room - used.len()) as nat),
{
    assert forall|
        queries: Seq<EthQueryView<N>>,
        hash: H256,
        compatible: H256,
        other: H256,
    |
        #![trigger cached(
            at(node, (past + used + queries).push(EthQueryView::CacheHash(hash, compatible))),
            other,
        )]
        all_cache(queries) && queries.len() < room - used.len() implies {
        let then = at(
            node,
            (past + used + queries).push(EthQueryView::CacheHash(hash, compatible)),
        );
        cached(then, other) == if other == hash {
            Some(compatible)
        } else {
            cached(at(node, past + used + queries), other)
        }
    } by {
        let both = used + queries;
        assert(past + used + queries =~= past + both);
        assert(all_cache(both));
        let then = at(node, (past + both).push(EthQueryView::CacheHash(hash, compatible)));
        assert(cached(then, other) == cached(then, other));
    }
}

/// What is derived for a block below another does not depend on what is cached for that other, and
/// nothing is cached for that other.
proof fn lemma_above_does_not_count<N: Node>(
    node: spec_fn(EthQueryView<N>) -> EthReply<N>,
    twin: spec_fn(EthQueryView<N>) -> EthReply<N>,
    forced: Option<Map<H256, H256>>,
    above: H256,
    hash: H256,
    depth: nat,
)
    requires
        parents_are_below(node),
        forall|other: H256| #[trigger] position(twin, other) == position(node, other),
        forall|other: H256| #[trigger] block(twin, other) == block(node, other),
        forall|other: H256|
            other != above ==> #[trigger] cached(twin, other) == cached(node, other),
        position(node, above) is Some,
        hash != above,
        position(node, hash) matches Some(place) ==> place.number@ < position(
            node,
            above,
        )->0.number@,
    ensures
        derived(twin, forced, hash, depth) == derived(node, forced, hash, depth),
        all_cache(derived(node, forced, hash, depth).cached),
        !some_caches_for(derived(node, forced, hash, depth).cached, above),
    decreases depth,
{
    assert(cached(twin, hash) == cached(node, hash));
    assert(position(twin, hash) == position(node, hash));
    assert(block(twin, hash) == block(node, hash));
    if cached(node, hash) is None && depth > 0 && position(node, hash) is Some {
        let place = position(node, hash)->0;
        if !(place.number@ == 0 || forced_parent(forced, hash) is Some) {
            lemma_above_does_not_count(
                node,
                twin,
                forced,
                above,
                place.parent_hash,
                (depth - 1) as nat,
            );
            let below = derived(node, forced, place.parent_hash, (depth - 1) as nat).cached;
            let whole = derived(node, forced, hash, depth).cached;
            assert forall|i: int| 0 <= i < whole.len() implies !caches_for(
                #[trigger] whole[i],
                above,
            ) by {
                if i < below.len() {
                    assert(whole[i] == below[i]);
                }
            }
        }
    }
}

/// Where the lookup by a block's own hash and the one by the hash under which Ethereum clients know
/// it give the same block, `block_by_hash` answers alike under both. The shown hash must be the one
/// that is found for the block, and what its lookup caches must be that it belongs to this block.
/// There must be room in the caches for all that the answer caches, lest they be emptied meanwhile.
pub proof fn law_block_is_answered_alike<N: Node>(
    node: spec_fn(Seq<EthQueryView<N>>, EthQueryView<N>) -> EthReply<N>,
    past: Seq<EthQueryView<N>>,
    forced: Option<Map<H256, H256>>,
    own_hash: H256,
    shown_hash: H256,
    full: bool,
)
    requires
        only_caches_change(node),
        caches_keep(
            node,
            past,
            answer_by_hash(node, past, forced, shown_hash, full).effects.len(),
        ),
        parents_are_below(at(node, past)),
        at(node, past)(EthQueryView::BlockInfoByEthBlockHash(own_hash))->Info_0 matches Ok(info)
            && info.block is Some && {
            &&& at(node, past)(EthQueryView::BlockInfoByEthBlockHash(shown_hash))->Info_0
                matches Ok(none) && none.block is None
            &&& info_of(at(node, past), shown_hash).outcome == Some(
                Ok::<BlockInfo<N>, RpcErrorView<N>>(info),
            )
            &&& forall|i: int|
                0 <= i < info_of(at(node, past), shown_hash).effects.len() ==> #[trigger] info_of(
                    at(node, past),
                    shown_hash,
                ).effects[i] == EthQueryView::<N>::CacheHash(info.substrate_hash, shown_hash)
        },
        answer_by_hash(node, past, forced, own_hash, full).outcome matches Some(
            Ok(Some(RichBlockView::WithParentHash(parts, _))),
        ) ==> parts.hash == Some(shown_hash),
    ensures
        answer_by_hash(node, past, forced, shown_hash, full).outcome == answer_by_hash(
            node,
            past,
            forced,
            own_hash,
            full,
        ).outcome,
{
    let first = at(node, past);
    let info = first(EthQueryView::BlockInfoByEthBlockHash(own_hash))->Info_0->Ok_0;
    let hash = info.substrate_hash;
    let lookup = info_of(first, shown_hash).effects;
    let none = Seq::<EthQueryView<N>>::empty();
    assert(found_info(first, own_hash).effects == none);
    assert(found_info(first, shown_hash) == info_of(first, shown_hash));
    assert(past + none =~= past);
    if let Some(material) = material_of(info, full) {
        let second = at(node, past + lookup);
        let room = answer_by_hash(node, past, forced, shown_hash, full).effects.len();
        assert(lookup.len() <= room);
        assert(all_cache(lookup));
        assert forall|other: H256| other != hash implies #[trigger] cached(second, other) == cached(
            first,
            other,
        ) by {
            lemma_others_are_kept(node, past, lookup, room, other);
        }
        assert(forall|other: H256| #[trigger] position(second, other) == position(first, other));
        assert(forall|other: H256| #[trigger] block(second, other) == block(first, other));
        assert(forall|other: H256| #[trigger] stored(second, other) == stored(first, other));
        let parent = parent_hash_of(first, forced, hash);
        assert(parent_hash_of(second, forced, hash) == parent && all_cache(parent.cached)
            && !some_caches_for(parent.cached, hash)) by {
            if forced_parent(forced, hash) is None && position(first, hash) is Some {
                let place = position(first, hash)->0;
                if place.number@ != 0 {
                    lemma_above_does_not_count(
                        first,
                        second,
                        forced,
                        hash,
                        place.parent_hash,
                        RPC_COMPATIBLE_HASH_DERIVATION_LIMIT as nat,
                    );
                    assert(place.parent_hash != hash);
                }
            }
        }
        let after_own = at(node, past + parent.cached);
        let after_shown = at(node, past + lookup + parent.cached);
        assert(hash_of(after_own, forced, hash).hash == Some(shown_hash));
        assert(stored(after_own, hash) == stored(first, hash));
        assert(stored(after_shown, hash) == stored(first, hash));
        if lookup.len() > 0 {
            let before = past + lookup.drop_last();
            assert(lookup[lookup.len() - 1] == EthQueryView::<N>::CacheHash(hash, shown_hash));
            assert(past + lookup =~= before.push(lookup.last()));
            assert(all_cache(lookup.drop_last()));
            let then = at(node, before.push(EthQueryView::CacheHash(hash, shown_hash)));
            assert(cached(then, hash) == Some(shown_hash));
            let left = (room - lookup.len()) as nat;
            assert(parent.cached.len() <= left);
            lemma_room_is_left(node, past, lookup, room);
            lemma_others_are_kept(node, past + lookup, parent.cached, left, hash);
            assert(cached(after_shown, hash) == Some(shown_hash));
        } else {
            assert(past + lookup =~= past);
        }
        assert(hash_of(after_shown, forced, hash).hash == Some(shown_hash));
        assert(built(node, past + lookup, forced, material).outcome == built(
            node,
            past,
            forced,
            material,
        ).outcome);
    }
}

/// On a node on which nothing changes meanwhile, `block_by_hash` answers alike under any two hashes
/// under which the lookup gives the same.
pub proof fn law_same_block_is_answered_alike<N: Node>(
    node: spec_fn(Seq<EthQueryView<N>>, EthQueryView<N>) -> EthReply<N>,
    past: Seq<EthQueryView<N>>,
    forced: Option<Map<H256, H256>>,
    one: H256,
    other: H256,
    full: bool,
)
    requires
        forall|now: Seq<EthQueryView<N>>, query: EthQueryView<N>| #[trigger]
            node(now, query) == node(past, query),
        found_info(at(node, past), one).outcome == found_info(at(node, past), other).outcome,
    ensures
        answer_by_hash(node, past, forced, one, full).outcome == answer_by_hash(
            node,
            past,
            forced,
            other,
            full,
        ).outcome,
{
    let first = at(node, past);
    assert forall|now: Seq<EthQueryView<N>>| #[trigger] at(node, now) == first by {
        assert(at(node, now) =~= first);
    }
}

} // verus!

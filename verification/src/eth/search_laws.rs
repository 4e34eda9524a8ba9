//! What the searches for hashes and the lookups by a hash find, from what the node holds.

use vstd::prelude::*;

use crate::eth::hash::{hash_start, parent_start, RPC_COMPATIBLE_HASH_DERIVATION_LIMIT};
use crate::eth::hash_laws::{
    derived, hash_bound, hash_run_after, law_rpc_compatible_hash, law_rpc_compatible_parent_hash,
    parent_run_after, Found,
};
use crate::eth::info::{
    first_known, info_bound, info_run_after, info_start, law_block_info_by_rpc_compatible_hash,
};
use crate::eth::queries::{
    only_caches_change, unknown_info, BlockInfo, ChainPosition, EthQueryView, EthReply, RpcErrorView,
};
use crate::hashing::rpc_compatible_hash_of;
use crate::machine::at;
use crate::node::Node;
use crate::primitives::H256;

verus! {

/// A hash that the mapping holds is found, whatever else is known, and cached.
pub proof fn law_mapped_hash_is_found<N: Node>(
    node: spec_fn(Seq<EthQueryView<N>>, EthQueryView<N>) -> EthReply<N>,
    past: Seq<EthQueryView<N>>,
    forced: Option<Map<H256, H256>>,
    hash: H256,
    shown: H256,
    fuel: nat,
)
    requires
        only_caches_change(node),
        fuel >= hash_bound(),
        node(past, EthQueryView::StoredHash(hash))->StoredHash_0 == Ok::<Option<H256>, ()>(
            Some(shown),
        ),
    ensures
        hash_run_after(node, past, forced, hash_start::<N>(hash), fuel).outcome == Some(Some(shown)),
        hash_run_after(node, past, forced, hash_start::<N>(hash), fuel).effects == seq![
            EthQueryView::<N>::CacheHash(hash, shown),
        ],
{
    law_rpc_compatible_hash(node, past, forced, hash, fuel);
}

/// A hash that the mapping does not hold, or that cannot be read there, is found in the cache, if it
/// is there; and nothing is done.
pub proof fn law_cached_hash_is_found<N: Node>(
    node: spec_fn(Seq<EthQueryView<N>>, EthQueryView<N>) -> EthReply<N>,
    past: Seq<EthQueryView<N>>,
    forced: Option<Map<H256, H256>>,
    hash: H256,
    shown: H256,
    fuel: nat,
)
    requires
        only_caches_change(node),
        fuel >= hash_bound(),
        !(node(past, EthQueryView::StoredHash(hash))->StoredHash_0 matches Ok(Some(_))),
        node(past, EthQueryView::CachedHash(hash))->CachedHash_0 == Some(shown),
    ensures
        hash_run_after(node, past, forced, hash_start::<N>(hash), fuel).outcome == Some(Some(shown)),
        hash_run_after(node, past, forced, hash_start::<N>(hash), fuel).effects.len() == 0,
{
    law_rpc_compatible_hash(node, past, forced, hash, fuel);
}

/// What is derived down the line from the block at `from`, as far as the blocks are there.
proof fn lemma_line<N: Node>(
    node: spec_fn(Seq<EthQueryView<N>>, EthQueryView<N>) -> EthReply<N>,
    past: Seq<EthQueryView<N>>,
    forced: Option<Map<H256, H256>>,
    line: Seq<H256>,
    shown: Seq<H256>,
    end: ChainPosition,
    base: Option<H256>,
    first: int,
    from: int,
    depth: nat,
)
    requires
        0 <= first <= from < line.len() == shown.len(),
        depth >= line.len() - from,
        forall|i: int|
            0 <= i < line.len() - 1 ==> {
                &&& node(past, EthQueryView::CachedHash(#[trigger] line[i]))->CachedHash_0 is None
                &&& node(past, EthQueryView::Position(line[i]))->Position_0 matches Ok(Some(place))
                &&& place.number@ != 0
                &&& !(forced matches Some(table) && table.dom().contains(line[i]))
                &&& place.parent_hash == line[i + 1]
            },
        node(past, EthQueryView::CachedHash(line.last()))->CachedHash_0 is None,
        node(past, EthQueryView::Position(line.last()))->Position_0 == Ok::<
            Option<ChainPosition>,
            (),
        >(Some(end)),
        if forced matches Some(table) && table.dom().contains(line.last()) {
            base == Some(forced->0[line.last()])
        } else if end.number@ == 0 {
            base is None
        } else {
            base is Some && node(past, EthQueryView::CachedHash(end.parent_hash))->CachedHash_0
                == base
        },
        forall|i: int|
            first <= i < line.len() ==> {
                &&& node(past, EthQueryView::CurrentBlock(#[trigger] line[i]))->Block_0
                    matches Some(block)
                &&& shown[i] == rpc_compatible_hash_of(
                    block.header@,
                    if i == line.len() - 1 {
                        base
                    } else {
                        Some(shown[i + 1])
                    },
                )
            },
    ensures
        ({
            let found = derived(at(node, past), forced, line[from], depth);
            &&& found.hash == Some(shown[from])
            &&& found.cached.len() == line.len() - from
            &&& forall|i: int|
                0 <= i < found.cached.len() ==> #[trigger] found.cached[i] == EthQueryView::<
                    N,
                >::CacheHash(line[line.len() - 1 - i], shown[line.len() - 1 - i])
        }),
    decreases line.len() - from,
{
    let now = at(node, past);
    let found = derived(now, forced, line[from], depth);
    if from < line.len() - 1 {
        lemma_line(
            node,
            past,
            forced,
            line,
            shown,
            end,
            base,
            first,
            from + 1,
            (depth - 1) as nat,
        );
        let below = derived(now, forced, line[from + 1], (depth - 1) as nat);
        let own = EthQueryView::<N>::CacheHash(line[from], shown[from]);
        assert(found.cached == below.cached.push(own));
    } else {
        assert(line[from] == line.last());
        if end.number@ != 0 && !(forced matches Some(table) && table.dom().contains(line[from])) {
            let below = derived(now, forced, end.parent_hash, (depth - 1) as nat);
            assert(below.hash == base && below.cached.len() == 0);
        }
        assert(found.cached.len() == 1);
    }
}

/// A hash that is neither in the mapping nor in the cache is worked out. The way leads down the
/// chain, past blocks whose hash is not in the cache and for which no parent is forced, to a block
/// for which one is forced, or to the genesis block, or to one whose parent is in the cache. From
/// there up each block's hash is that of its header above the hash below it; the lowest one's is
/// above the forced hash, above nothing, or above the cached hash. All these hashes are cached,
/// the lowest first, and the last is what is found. No more than 8192 blocks are gone through.
pub proof fn law_hash_is_worked_out<N: Node>(
    node: spec_fn(Seq<EthQueryView<N>>, EthQueryView<N>) -> EthReply<N>,
    past: Seq<EthQueryView<N>>,
    forced: Option<Map<H256, H256>>,
    line: Seq<H256>,
    shown: Seq<H256>,
    end: ChainPosition,
    base: Option<H256>,
    fuel: nat,
)
    requires
        only_caches_change(node),
        fuel >= hash_bound(),
        0 < line.len() <= 8192,
        shown.len() == line.len(),
        !(node(past, EthQueryView::StoredHash(line[0]))->StoredHash_0 matches Ok(Some(_))),
        forall|i: int|
            0 <= i < line.len() - 1 ==> {
                &&& node(past, EthQueryView::CachedHash(#[trigger] line[i]))->CachedHash_0 is None
                &&& node(past, EthQueryView::Position(line[i]))->Position_0 matches Ok(Some(place))
                &&& place.number@ != 0
                &&& !(forced matches Some(table) && table.dom().contains(line[i]))
                &&& place.parent_hash == line[i + 1]
            },
        node(past, EthQueryView::CachedHash(line.last()))->CachedHash_0 is None,
        node(past, EthQueryView::Position(line.last()))->Position_0 == Ok::<
            Option<ChainPosition>,
            (),
        >(Some(end)),
        if forced matches Some(table) && table.dom().contains(line.last()) {
            base == Some(forced->0[line.last()])
        } else if end.number@ == 0 {
            base is None
        } else {
            base is Some && node(past, EthQueryView::CachedHash(end.parent_hash))->CachedHash_0
                == base
        },
        forall|i: int|
            0 <= i < line.len() ==> {
                &&& node(past, EthQueryView::CurrentBlock(#[trigger] line[i]))->Block_0
                    matches Some(block)
                &&& shown[i] == rpc_compatible_hash_of(
                    block.header@,
                    if i == line.len() - 1 {
                        base
                    } else {
                        Some(shown[i + 1])
                    },
                )
            },
    ensures
        ({
            let whole = hash_run_after(node, past, forced, hash_start::<N>(line[0]), fuel);
            &&& whole.outcome == Some(Some(shown[0]))
            &&& whole.effects.len() == line.len()
            &&& forall|i: int|
                0 <= i < line.len() ==> #[trigger] whole.effects[i] == EthQueryView::<
                    N,
                >::CacheHash(line[line.len() - 1 - i], shown[line.len() - 1 - i])
        }),
{
    law_rpc_compatible_hash(node, past, forced, line[0], fuel);
    let limit = RPC_COMPATIBLE_HASH_DERIVATION_LIMIT as nat;
    lemma_line(node, past, forced, line, shown, end, base, 0, 0, limit);
}

proof fn lemma_line_fails<N: Node>(
    node: spec_fn(Seq<EthQueryView<N>>, EthQueryView<N>) -> EthReply<N>,
    past: Seq<EthQueryView<N>>,
    forced: Option<Map<H256, H256>>,
    line: Seq<H256>,
    last: int,
    from: int,
    depth: nat,
    found: Found<N>,
)
    requires
        0 <= from <= last < line.len(),
        depth >= last - from,
        forall|i: int|
            0 <= i < last ==> {
                &&& node(past, EthQueryView::CachedHash(#[trigger] line[i]))->CachedHash_0 is None
                &&& node(past, EthQueryView::Position(line[i]))->Position_0 matches Ok(Some(place))
                &&& place.number@ != 0
                &&& !(forced matches Some(table) && table.dom().contains(line[i]))
                &&& place.parent_hash == line[i + 1]
            },
        derived(at(node, past), forced, line[last], (depth - (last - from)) as nat) == found,
        found.hash is None,
    ensures
        derived(at(node, past), forced, line[from], depth) == found,
    decreases last - from,
{
    if from < last {
        lemma_line_fails(
            node,
            past,
            forced,
            line,
            last,
            from + 1,
            (depth - 1) as nat,
            found,
        );
        assert(line[from] == line[from]);
    }
}

/// Where on the way up from the lowest block one is missing, nothing is found; the hashes of those
/// below it are cached, the lowest first.
pub proof fn law_hash_above_missing_block_is_not_found<N: Node>(
    node: spec_fn(Seq<EthQueryView<N>>, EthQueryView<N>) -> EthReply<N>,
    past: Seq<EthQueryView<N>>,
    forced: Option<Map<H256, H256>>,
    line: Seq<H256>,
    shown: Seq<H256>,
    end: ChainPosition,
    base: Option<H256>,
    missing: int,
    fuel: nat,
)
    requires
        only_caches_change(node),
        fuel >= hash_bound(),
        0 <= missing < line.len() <= 8192,
        shown.len() == line.len(),
        !(node(past, EthQueryView::StoredHash(line[0]))->StoredHash_0 matches Ok(Some(_))),
        forall|i: int|
            0 <= i < line.len() - 1 ==> {
                &&& node(past, EthQueryView::CachedHash(#[trigger] line[i]))->CachedHash_0 is None
                &&& node(past, EthQueryView::Position(line[i]))->Position_0 matches Ok(Some(place))
                &&& place.number@ != 0
                &&& !(forced matches Some(table) && table.dom().contains(line[i]))
                &&& place.parent_hash == line[i + 1]
            },
        node(past, EthQueryView::CachedHash(line.last()))->CachedHash_0 is None,
        node(past, EthQueryView::Position(line.last()))->Position_0 == Ok::<
            Option<ChainPosition>,
            (),
        >(Some(end)),
        if forced matches Some(table) && table.dom().contains(line.last()) {
            base == Some(forced->0[line.last()])
        } else if end.number@ == 0 {
            base is None
        } else {
            base is Some && node(past, EthQueryView::CachedHash(end.parent_hash))->CachedHash_0
                == base
        },
        forall|i: int|
            missing + 1 <= i < line.len() ==> {
                &&& node(past, EthQueryView::CurrentBlock(#[trigger] line[i]))->Block_0
                    matches Some(block)
                &&& shown[i] == rpc_compatible_hash_of(
                    block.header@,
                    if i == line.len() - 1 {
                        base
                    } else {
                        Some(shown[i + 1])
                    },
                )
            },
        node(past, EthQueryView::CurrentBlock(line[missing]))->Block_0 is None,
    ensures
        ({
            let whole = hash_run_after(node, past, forced, hash_start::<N>(line[0]), fuel);
            &&& whole.outcome == Some(None::<H256>)
            &&& whole.effects.len() == line.len() - 1 - missing
            &&& forall|i: int|
                0 <= i < whole.effects.len() ==> #[trigger] whole.effects[i] == EthQueryView::<
                    N,
                >::CacheHash(line[line.len() - 1 - i], shown[line.len() - 1 - i])
        }),
{
    law_rpc_compatible_hash(node, past, forced, line[0], fuel);
    let limit = RPC_COMPATIBLE_HASH_DERIVATION_LIMIT as nat;
    let now = at(node, past);
    let depth = (limit - missing) as nat;
    let found = derived(now, forced, line[missing], depth);
    if missing < line.len() - 1 {
        lemma_line(
            node,
            past,
            forced,
            line,
            shown,
            end,
            base,
            missing + 1,
            missing + 1,
            (depth - 1) as nat,
        );
        let below = derived(now, forced, line[missing + 1], (depth - 1) as nat);
        assert(found.cached == below.cached);
    } else {
        assert(line[missing] == line.last());
        if end.number@ != 0 && !(forced matches Some(table) && table.dom().contains(line[missing])) {
            let below = derived(now, forced, end.parent_hash, (depth - 1) as nat);
            assert(below.hash == base && below.cached.len() == 0);
        }
    }
    assert(found.hash is None);
    lemma_line_fails(node, past, forced, line, missing, 0, limit, found);
}

/// Where the way down leads to a block whose place is not known, nothing is found and nothing done.
pub proof fn law_hash_above_unknown_place_is_not_found<N: Node>(
    node: spec_fn(Seq<EthQueryView<N>>, EthQueryView<N>) -> EthReply<N>,
    past: Seq<EthQueryView<N>>,
    forced: Option<Map<H256, H256>>,
    line: Seq<H256>,
    fuel: nat,
)
    requires
        only_caches_change(node),
        fuel >= hash_bound(),
        0 < line.len() <= 8192,
        !(node(past, EthQueryView::StoredHash(line[0]))->StoredHash_0 matches Ok(Some(_))),
        forall|i: int|
            0 <= i < line.len() - 1 ==> {
                &&& node(past, EthQueryView::CachedHash(#[trigger] line[i]))->CachedHash_0 is None
                &&& node(past, EthQueryView::Position(line[i]))->Position_0 matches Ok(Some(place))
                &&& place.number@ != 0
                &&& !(forced matches Some(table) && table.dom().contains(line[i]))
                &&& place.parent_hash == line[i + 1]
            },
        node(past, EthQueryView::CachedHash(line.last()))->CachedHash_0 is None,
        !(node(past, EthQueryView::Position(line.last()))->Position_0 matches Ok(Some(_))),
    ensures
        hash_run_after(node, past, forced, hash_start::<N>(line[0]), fuel).outcome == Some(None::<H256>),
        hash_run_after(node, past, forced, hash_start::<N>(line[0]), fuel).effects.len() == 0,
{
    law_rpc_compatible_hash(node, past, forced, line[0], fuel);
    let limit = RPC_COMPATIBLE_HASH_DERIVATION_LIMIT as nat;
    let last = line.len() - 1;
    let found = derived(at(node, past), forced, line[last], (limit - last) as nat);
    lemma_line_fails(node, past, forced, line, last, 0, limit, found);
}

/// Where the way down leads past 8192 blocks to one more that is not in the cache, nothing is found
/// and nothing done.
pub proof fn law_hash_too_far_up_is_not_found<N: Node>(
    node: spec_fn(Seq<EthQueryView<N>>, EthQueryView<N>) -> EthReply<N>,
    past: Seq<EthQueryView<N>>,
    forced: Option<Map<H256, H256>>,
    line: Seq<H256>,
    fuel: nat,
)
    requires
        only_caches_change(node),
        fuel >= hash_bound(),
        line.len() == 8193,
        !(node(past, EthQueryView::StoredHash(line[0]))->StoredHash_0 matches Ok(Some(_))),
        forall|i: int|
            0 <= i < line.len() - 1 ==> {
                &&& node(past, EthQueryView::CachedHash(#[trigger] line[i]))->CachedHash_0 is None
                &&& node(past, EthQueryView::Position(line[i]))->Position_0 matches Ok(Some(place))
                &&& place.number@ != 0
                &&& !(forced matches Some(table) && table.dom().contains(line[i]))
                &&& place.parent_hash == line[i + 1]
            },
        node(past, EthQueryView::CachedHash(line.last()))->CachedHash_0 is None,
    ensures
        hash_run_after(node, past, forced, hash_start::<N>(line[0]), fuel).outcome == Some(None::<H256>),
        hash_run_after(node, past, forced, hash_start::<N>(line[0]), fuel).effects.len() == 0,
{
    law_rpc_compatible_hash(node, past, forced, line[0], fuel);
    let limit = RPC_COMPATIBLE_HASH_DERIVATION_LIMIT as nat;
    let found = derived(at(node, past), forced, line[8192], 0);
    lemma_line_fails(node, past, forced, line, 8192, 0, limit, found);
}

/// The hash of the parent is the one that is forced for the block. Without one, there is none for a
/// block whose place is not known and for the genesis block; and for any other it is what the
/// search for the hash of the block finds that the place names as the parent, with all that this
/// search does.
pub proof fn law_parent_hash_is_that_of_the_parent<N: Node>(
    node: spec_fn(Seq<EthQueryView<N>>, EthQueryView<N>) -> EthReply<N>,
    past: Seq<EthQueryView<N>>,
    forced: Option<Map<H256, H256>>,
    hash: H256,
    fuel: nat,
)
    requires
        only_caches_change(node),
        fuel >= hash_bound() + 1,
    ensures
        ({
            let whole = parent_run_after(
                node,
                past,
                forced,
                parent_start::<N>(forced, hash),
                fuel,
            );
            let is_forced = forced matches Some(table) && table.dom().contains(hash);
            let place = node(past, EthQueryView::Position(hash))->Position_0;
            &&& is_forced ==> whole.outcome == Some(Some(forced->0[hash])) && whole.effects.len()
                == 0
            &&& !is_forced && !(place matches Ok(Some(_))) ==> whole.outcome == Some(None::<H256>)
                && whole.effects.len() == 0
            &&& !is_forced ==> (place matches Ok(Some(place)) ==> place.number@ == 0
                ==> whole.outcome == Some(None::<H256>) && whole.effects.len() == 0)
            &&& !is_forced ==> (place matches Ok(Some(place)) ==> place.number@ != 0 ==> {
                let parent = hash_run_after(node, past, forced, hash_start::<N>(place.parent_hash), fuel);
                whole.outcome == parent.outcome && whole.effects == parent.effects
            })
        }),
{
    law_rpc_compatible_parent_hash(node, past, forced, hash, fuel);
    if let Ok(Some(place)) = node(past, EthQueryView::Position(hash))->Position_0 {
        law_rpc_compatible_hash(node, past, forced, place.parent_hash, fuel);
    }
}

/// What is known of the block in the cache is what is found, be it an error, if that block is on the
/// canonical chain; and nothing is done.
pub proof fn law_cached_block_is_found<N: Node>(
    node: spec_fn(Seq<EthQueryView<N>>, EthQueryView<N>) -> EthReply<N>,
    past: Seq<EthQueryView<N>>,
    hash: H256,
    chain_hash: H256,
    fuel: nat,
)
    requires
        only_caches_change(node),
        fuel >= info_bound(at(node, past), hash),
        node(past, EthQueryView::CachedChainHash(hash))->CachedHash_0 == Some(chain_hash),
        node(past, EthQueryView::IsCanon(chain_hash))->Canon_0,
    ensures
        ({
            let whole = info_run_after(node, past, info_start::<N>(hash), fuel);
            let known = node(past, EthQueryView::BlockInfoByChainHash(chain_hash))->Info_0;
            &&& whole.effects.len() == 0
            &&& known matches Ok(info) ==> whole.outcome == Some(
                Ok::<BlockInfo<N>, RpcErrorView<N>>(info),
            )
            &&& known matches Err(error) ==> whole.outcome == Some(
                Err::<BlockInfo<N>, RpcErrorView<N>>(RpcErrorView::Node(error)),
            )
        }),
{
    law_block_info_by_rpc_compatible_hash(node, past, hash, fuel);
}

/// Where the cache holds no block on the canonical chain and the mapping cannot be read, that is an
/// internal error; where the mapping holds no list, nothing is known. Nothing is done in either case.
pub proof fn law_hash_outside_the_mapping<N: Node>(
    node: spec_fn(Seq<EthQueryView<N>>, EthQueryView<N>) -> EthReply<N>,
    past: Seq<EthQueryView<N>>,
    hash: H256,
    fuel: nat,
)
    requires
        only_caches_change(node),
        fuel >= info_bound(at(node, past), hash),
        node(past, EthQueryView::CachedChainHash(hash))->CachedHash_0 matches Some(chain_hash)
            ==> !node(past, EthQueryView::IsCanon(chain_hash))->Canon_0,
    ensures
        ({
            let whole = info_run_after(node, past, info_start::<N>(hash), fuel);
            let mapped = node(past, EthQueryView::MappedChainHashes(hash))->MappedChainHashes_0;
            &&& mapped matches Err(error) ==> whole.effects.len() == 0 && whole.outcome == Some(
                Err::<BlockInfo<N>, RpcErrorView<N>>(
                    RpcErrorView::Internal("fetch aux store failed: "@ + error@),
                ),
            )
            &&& mapped matches Ok(None) ==> {
                &&& whole.effects.len() == 0
                &&& whole.outcome matches Some(Ok(info))
                &&& info.block is None && info.statuses is None && info.details is None
                &&& info.base_fee@ == 0
                &&& forall|i: int| 0 <= i < 32 ==> #[trigger] info.substrate_hash@[i] == 0
            }
        }),
{
    law_block_info_by_rpc_compatible_hash(node, past, hash, fuel);
}

proof fn lemma_tried<N: Node>(
    node: spec_fn(EthQueryView<N>) -> EthReply<N>,
    hash: H256,
    candidates: Seq<H256>,
    index: int,
    tried: Seq<int>,
    from: int,
    seen: int,
)
    requires
        0 <= from <= index <= candidates.len(),
        0 <= seen <= tried.len(),
        forall|i: int|
            from <= i < index ==> (node(
                EthQueryView::IsCanon(#[trigger] candidates[i]),
            )->Canon_0 ==> (node(EthQueryView::BlockInfoByChainHash(candidates[i]))->Info_0
                matches Ok(info) && info.block is None)),
        index < candidates.len() ==> node(EthQueryView::IsCanon(candidates[index]))->Canon_0 && (
        node(EthQueryView::BlockInfoByChainHash(candidates[index]))->Info_0 matches Ok(info)
            ==> info.block is Some),
        forall|i: int, j: int|
            0 <= i < j < tried.len() ==> #[trigger] tried[i] < #[trigger] tried[j],
        forall|i: int|
            seen <= i < tried.len() ==> from <= #[trigger] tried[i] <= index && tried[i]
                < candidates.len() && node(EthQueryView::IsCanon(candidates[tried[i]]))->Canon_0,
        forall|i: int|
            from <= i <= index && i < candidates.len() && node(
                EthQueryView::IsCanon(#[trigger] candidates[i]),
            )->Canon_0 ==> exists|j: int| seen <= j < tried.len() && #[trigger] tried[j] == i,
    ensures
        ({
            let found = first_known(node, hash, candidates, from as nat);
            &&& found.effects.len() == tried.len() - seen
            &&& forall|i: int|
                0 <= i < found.effects.len() ==> #[trigger] found.effects[i] == EthQueryView::<
                    N,
                >::CacheHash(candidates[tried[seen + i]], hash)
            &&& index < candidates.len() ==> (node(
                EthQueryView::BlockInfoByChainHash(candidates[index]),
            )->Info_0 matches Ok(info) ==> found.outcome == Some(
                Ok::<BlockInfo<N>, RpcErrorView<N>>(info),
            ))
            &&& index < candidates.len() ==> (node(
                EthQueryView::BlockInfoByChainHash(candidates[index]),
            )->Info_0 matches Err(error) ==> found.outcome == Some(
                Err::<BlockInfo<N>, RpcErrorView<N>>(RpcErrorView::Node(error)),
            ))
            &&& index == candidates.len() ==> found.outcome == Some(
                Ok::<BlockInfo<N>, RpcErrorView<N>>(unknown_info::<N>()),
            )
        }),
    decreases candidates.len() - from,
{
    let found = first_known(node, hash, candidates, from as nat);
    if from < candidates.len() {
        let candidate = candidates[from];
        if node(EthQueryView::IsCanon(candidate))->Canon_0 {
            let j = choose|j: int| seen <= j < tried.len() && #[trigger] tried[j] == from;
            if j > seen {
                assert(tried[seen] < tried[j]);
            }
            assert(tried[seen] == from);
            if from < index {
                assert forall|i: int| seen + 1 <= i < tried.len() implies
                from + 1 <= #[trigger] tried[i] by {
                    assert(tried[seen] < tried[i]);
                }
                assert forall|i: int|
                    from + 1 <= i <= index && i < candidates.len() && node(
                        EthQueryView::IsCanon(#[trigger] candidates[i]),
                    )->Canon_0 implies exists|j: int|
                    seen + 1 <= j < tried.len() && #[trigger] tried[j] == i by {
                    let k = choose|k: int| seen <= k < tried.len() && #[trigger] tried[k] == i;
                    assert(k != seen);
                }
                lemma_tried(node, hash, candidates, index, tried, from + 1, seen + 1);
                let rest = first_known(node, hash, candidates, (from + 1) as nat);
                assert(found.effects == seq![EthQueryView::<N>::CacheHash(candidate, hash)]
                    + rest.effects);
            } else {
                if tried.len() > seen + 1 {
                    assert(tried[seen] < tried[seen + 1]);
                }
                assert(found.effects == seq![EthQueryView::<N>::CacheHash(candidate, hash)]);
            }
        } else {
            assert forall|i: int| seen <= i < tried.len() implies
            from + 1 <= #[trigger] tried[i] by {
                assert(tried[i] != from);
            }
            lemma_tried(node, hash, candidates, index, tried, from + 1, seen);
        }
    } else {
        if tried.len() > seen {
            assert(tried[seen] < candidates.len());
        }
    }
}

/// Where the cache holds no block on the canonical chain, the chain blocks in the mapping are tried
/// in order. What is found is what is known of the first, at `index`, that is on the canonical chain
/// and of which a block, or an error, is known; nothing is known if there is none. The blocks on the
/// canonical chain that were tried, at the places in `tried`, are each cached under the hash, in
/// order, and nothing else is done.
pub proof fn law_first_known_block_is_found<N: Node>(
    node: spec_fn(Seq<EthQueryView<N>>, EthQueryView<N>) -> EthReply<N>,
    past: Seq<EthQueryView<N>>,
    hash: H256,
    candidates: Vec<H256>,
    index: int,
    tried: Seq<int>,
    fuel: nat,
)
    requires
        only_caches_change(node),
        fuel >= info_bound(at(node, past), hash),
        node(past, EthQueryView::CachedChainHash(hash))->CachedHash_0 matches Some(chain_hash)
            ==> !node(past, EthQueryView::IsCanon(chain_hash))->Canon_0,
        node(past, EthQueryView::MappedChainHashes(hash))->MappedChainHashes_0 == Ok::<
            Option<Vec<H256>>,
            String,
        >(Some(candidates)),
        0 <= index <= candidates@.len(),
        forall|i: int|
            0 <= i < index ==> (node(
                past,
                EthQueryView::IsCanon(#[trigger] candidates@[i]),
            )->Canon_0 ==> (node(
                past,
                EthQueryView::BlockInfoByChainHash(candidates@[i]),
            )->Info_0 matches Ok(info) && info.block is None)),
        index < candidates@.len() ==> node(
            past,
            EthQueryView::IsCanon(candidates@[index]),
        )->Canon_0 && (node(
            past,
            EthQueryView::BlockInfoByChainHash(candidates@[index]),
        )->Info_0 matches Ok(info) ==> info.block is Some),
        forall|i: int, j: int|
            0 <= i < j < tried.len() ==> #[trigger] tried[i] < #[trigger] tried[j],
        forall|i: int|
            0 <= i < tried.len() ==> 0 <= #[trigger] tried[i] <= index && tried[i]
                < candidates@.len() && node(
                past,
                EthQueryView::IsCanon(candidates@[tried[i]]),
            )->Canon_0,
        forall|i: int|
            0 <= i <= index && i < candidates@.len() && node(
                past,
                EthQueryView::IsCanon(#[trigger] candidates@[i]),
            )->Canon_0 ==> exists|j: int| 0 <= j < tried.len() && #[trigger] tried[j] == i,
    ensures
        ({
            let whole = info_run_after(node, past, info_start::<N>(hash), fuel);
            &&& whole.effects.len() == tried.len()
            &&& forall|i: int|
                0 <= i < tried.len() ==> #[trigger] whole.effects[i] == EthQueryView::<
                    N,
                >::CacheHash(candidates@[tried[i]], hash)
            &&& index < candidates@.len() ==> (node(
                past,
                EthQueryView::BlockInfoByChainHash(candidates@[index]),
            )->Info_0 matches Ok(info) ==> whole.outcome == Some(
                Ok::<BlockInfo<N>, RpcErrorView<N>>(info),
            ))
            &&& index < candidates@.len() ==> (node(
                past,
                EthQueryView::BlockInfoByChainHash(candidates@[index]),
            )->Info_0 matches Err(error) ==> whole.outcome == Some(
                Err::<BlockInfo<N>, RpcErrorView<N>>(RpcErrorView::Node(error)),
            ))
            &&& index == candidates@.len() ==> {
                &&& whole.outcome matches Some(Ok(info))
                &&& info.block is None && info.statuses is None && info.details is None
                &&& info.base_fee@ == 0
                &&& forall|i: int| 0 <= i < 32 ==> #[trigger] info.substrate_hash@[i] == 0
            }
        }),
{
    law_block_info_by_rpc_compatible_hash(node, past, hash, fuel);
    lemma_tried(at(node, past), hash, candidates@, index, tried, 0, 0);
}

} // verus!

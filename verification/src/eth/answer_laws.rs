//! What clients are answered, field by field, from what the node holds.

use vstd::prelude::*;

use crate::block::Block;
use crate::eth::by_hash::{
    by_hash_run, by_hash_start, count_by_hash_run, in_count, law_block_by_hash,
    law_block_transaction_count_by_hash,
};
use crate::eth::by_number::{
    by_number_run, by_number_start, count_by_number_start, find_block_bound, law_block_by_number,
    law_block_transaction_count_by_number, TransactionCountByNumber,
};
use crate::eth::find::{find_bound, find_start, found_info};
use crate::eth::hash::{hash_start, parent_start};
use crate::eth::hash_laws::{
    hash_bound, hash_run_after, law_rpc_compatible_hash, law_rpc_compatible_parent_hash,
    parent_run_after,
};
use crate::eth::info::{
    info_bound, info_run_after, info_start, law_block_info_by_rpc_compatible_hash,
};
use crate::eth::queries::{
    answers_all, is_effect, only_caches_change, BlockInfo, BlockNumberOrHash, EthQueryView,
    EthReply, RpcErrorView, TransactionStatus,
};
use crate::eth::rich::{build_bound, RichBlockView};
use crate::machine::{at, run};
use crate::node::Node;
use crate::primitives::H256;

verus! {

/// A client that asks for a block by a hash is answered with the block that has the hash by itself,
/// or else with the one that is found under the shown hash: with that very block, all its statuses
/// in their order, its base fee, whole transactions exactly if they were asked for, and not as
/// pending. The hash of the parent and that of the block are what the searches for them find, one
/// after the other, for the chain block that is known with it. What the lookup and the searches do
/// is all that is done.
pub proof fn law_found_block_is_shown<N: Node>(
    node: spec_fn(Seq<EthQueryView<N>>, EthQueryView<N>) -> EthReply<N>,
    past: Seq<EthQueryView<N>>,
    forced: Option<Map<H256, H256>>,
    hash: H256,
    full: bool,
    info: BlockInfo<N>,
    looked: Seq<EthQueryView<N>>,
    fuel: nat,
)
    requires
        only_caches_change(node),
        fuel >= find_bound(at(node, past), hash) + build_bound(),
        ({
            let own = node(past, EthQueryView::BlockInfoByEthBlockHash(hash))->Info_0;
            let lookup = info_run_after(
                node,
                past,
                info_start::<N>(hash),
                info_bound(at(node, past), hash),
            );
            ||| looked.len() == 0 && info.block is Some && own == Ok::<BlockInfo<N>, N::Error>(info)
            ||| (own matches Ok(unknown) && unknown.block is None) && lookup.effects == looked
                && lookup.outcome == Some(Ok::<BlockInfo<N>, RpcErrorView<N>>(info))
        }),
        info.block is Some,
        info.statuses is Some,
    ensures
        ({
            let whole = by_hash_run(node, past, forced, by_hash_start::<N>(forced, hash, full), fuel);
            let answer = whole.outcome;
            let parent = parent_run_after(
                node,
                past + looked,
                forced,
                parent_start::<N>(forced, info.substrate_hash),
                hash_bound() + 1,
            );
            let own = hash_run_after(
                node,
                past + looked + parent.effects,
                forced,
                hash_start::<N>(info.substrate_hash),
                hash_bound(),
            );
            &&& answer matches Some(Ok(Some(RichBlockView::WithParentHash(parts, parent_hash))))
            &&& parts.block == info.block->0
            &&& parts.statuses.len() == info.statuses->0@.len()
            &&& forall|i: int|
                0 <= i < parts.statuses.len() ==> #[trigger] parts.statuses[i] == Some(
                    info.statuses->0@[i],
                )
            &&& parts.full == full
            &&& parts.base_fee == Some(info.base_fee)
            &&& !parts.is_pending
            &&& Some(parent_hash) == parent.outcome
            &&& Some(parts.hash) == own.outcome
            &&& whole.effects == looked + (parent.effects + own.effects)
        }),
{
    law_block_by_hash(node, past, forced, hash, full, fuel);
    law_block_info_by_rpc_compatible_hash(node, past, hash, info_bound(at(node, past), hash));
    assert(past + looked == past + found_info(at(node, past), hash).effects);
    let then = past + looked;
    law_rpc_compatible_parent_hash(node, then, forced, info.substrate_hash, hash_bound() + 1);
    let parent = parent_run_after(
        node,
        then,
        forced,
        parent_start::<N>(forced, info.substrate_hash),
        hash_bound() + 1,
    );
    let later = then + parent.effects;
    law_rpc_compatible_hash(node, later, forced, info.substrate_hash, hash_bound());
}

/// A client that asks for a block by a hash is answered with nothing, and no error, where nothing is
/// found under the hash, or the block is found without its statuses. What the lookup does is all
/// that is done.
pub proof fn law_block_that_is_not_shown<N: Node>(
    node: spec_fn(Seq<EthQueryView<N>>, EthQueryView<N>) -> EthReply<N>,
    past: Seq<EthQueryView<N>>,
    forced: Option<Map<H256, H256>>,
    hash: H256,
    full: bool,
    info: BlockInfo<N>,
    looked: Seq<EthQueryView<N>>,
    fuel: nat,
)
    requires
        only_caches_change(node),
        fuel >= find_bound(at(node, past), hash) + build_bound(),
        ({
            let own = node(past, EthQueryView::BlockInfoByEthBlockHash(hash))->Info_0;
            let lookup = info_run_after(
                node,
                past,
                info_start::<N>(hash),
                info_bound(at(node, past), hash),
            );
            ||| looked.len() == 0 && info.block is Some && own == Ok::<BlockInfo<N>, N::Error>(info)
            ||| (own matches Ok(unknown) && unknown.block is None) && lookup.effects == looked
                && lookup.outcome == Some(Ok::<BlockInfo<N>, RpcErrorView<N>>(info))
        }),
        info.block is None || info.statuses is None,
    ensures
        by_hash_run(node, past, forced, by_hash_start::<N>(forced, hash, full), fuel).outcome
            matches Some(Ok(None)),
        by_hash_run(node, past, forced, by_hash_start::<N>(forced, hash, full), fuel).effects
            == looked,
{
    law_block_by_hash(node, past, forced, hash, full, fuel);
    law_block_info_by_rpc_compatible_hash(node, past, hash, info_bound(at(node, past), hash));
}

/// A client that asks by a hash, for a block or for a number of transactions, gets the error of the
/// lookup by the block's own hash, if that fails, and that of the lookup by the shown hash, if
/// nothing is known by the own hash and that fails.
pub proof fn law_failed_lookup_is_answered<N: Node>(
    node: spec_fn(Seq<EthQueryView<N>>, EthQueryView<N>) -> EthReply<N>,
    past: Seq<EthQueryView<N>>,
    forced: Option<Map<H256, H256>>,
    hash: H256,
    full: bool,
    fuel: nat,
)
    requires
        only_caches_change(node),
        fuel >= find_bound(at(node, past), hash) + build_bound(),
    ensures
        ({
            let block = by_hash_run(node, past, forced, by_hash_start::<N>(forced, hash, full), fuel);
            let count = count_by_hash_run(node, past, in_count(find_start::<N>(hash)), fuel);
            let own = node(past, EthQueryView::BlockInfoByEthBlockHash(hash))->Info_0;
            let lookup = info_run_after(
                node,
                past,
                info_start::<N>(hash),
                info_bound(at(node, past), hash),
            );
            &&& own matches Err(error) ==> {
                &&& block.effects.len() == 0 && count.effects.len() == 0
                &&& block.outcome == Some(
                    Err::<Option<RichBlockView<N>>, RpcErrorView<N>>(RpcErrorView::Node(error)),
                )
                &&& count.outcome == Some(
                    Err::<Option<nat>, RpcErrorView<N>>(RpcErrorView::Node(error)),
                )
            }
            &&& own matches Ok(unknown) ==> unknown.block is None ==> (lookup.outcome matches Some(
                Err(error),
            ) ==> {
                &&& block.effects == lookup.effects && count.effects == lookup.effects
                &&& block.outcome == Some(Err::<Option<RichBlockView<N>>, RpcErrorView<N>>(error))
                &&& count.outcome == Some(Err::<Option<nat>, RpcErrorView<N>>(error))
            })
        }),
{
    law_block_by_hash(node, past, forced, hash, full, fuel);
    law_block_transaction_count_by_hash(node, past, hash, fuel);
    law_block_info_by_rpc_compatible_hash(node, past, hash, info_bound(at(node, past), hash));
}

/// A client that asks for a number of transactions by a hash is answered with that of the block that
/// is found under it, be its statuses known or not, and with nothing where none is found. What the
/// lookup does is all that is done.
pub proof fn law_transactions_of_found_block_are_counted<N: Node>(
    node: spec_fn(Seq<EthQueryView<N>>, EthQueryView<N>) -> EthReply<N>,
    past: Seq<EthQueryView<N>>,
    hash: H256,
    info: BlockInfo<N>,
    looked: Seq<EthQueryView<N>>,
    fuel: nat,
)
    requires
        only_caches_change(node),
        fuel >= find_bound(at(node, past), hash),
        ({
            let own = node(past, EthQueryView::BlockInfoByEthBlockHash(hash))->Info_0;
            let lookup = info_run_after(
                node,
                past,
                info_start::<N>(hash),
                info_bound(at(node, past), hash),
            );
            ||| looked.len() == 0 && info.block is Some && own == Ok::<BlockInfo<N>, N::Error>(info)
            ||| (own matches Ok(unknown) && unknown.block is None) && lookup.effects == looked
                && lookup.outcome == Some(Ok::<BlockInfo<N>, RpcErrorView<N>>(info))
        }),
    ensures
        ({
            let whole = count_by_hash_run(node, past, in_count(find_start::<N>(hash)), fuel);
            &&& whole.effects == looked
            &&& info.block matches Some(block) ==> whole.outcome == Some(
                Ok::<Option<nat>, RpcErrorView<N>>(Some(block.transactions@.len())),
            )
            &&& info.block is None ==> whole.outcome == Some(
                Ok::<Option<nat>, RpcErrorView<N>>(None),
            )
        }),
{
    law_block_transaction_count_by_hash(node, past, hash, fuel);
    law_block_info_by_rpc_compatible_hash(node, past, hash, info_bound(at(node, past), hash));
}

/// A client that asks for the block at a place of the chain is answered with that very block, all its
/// statuses in their order, the gas price there as its base fee, if that can be read, whole
/// transactions exactly if they were asked for, and not as pending. The hash of the parent and that
/// of the block are what the searches for them find, one after the other, for the chain block at the
/// place. What the searches do is all that is done.
pub proof fn law_block_at_place_is_shown<N: Node>(
    node: spec_fn(Seq<EthQueryView<N>>, EthQueryView<N>) -> EthReply<N>,
    past: Seq<EthQueryView<N>>,
    forced: Option<Map<H256, H256>>,
    place: BlockNumberOrHash<N>,
    full: bool,
    id: N::BlockId,
    chain_hash: H256,
    block: Block<N::Transaction>,
    statuses: Vec<TransactionStatus<N>>,
    fuel: nat,
)
    requires
        only_caches_change(node),
        fuel >= find_block_bound() + build_bound(),
        node(past, EthQueryView::NativeBlockId(place))->Id_0 == Ok::<
            Option<N::BlockId>,
            N::Error,
        >(Some(id)),
        node(past, EthQueryView::ChainHashOfId(id))->ChainHash_0 == Ok::<H256, String>(chain_hash),
        node(past, EthQueryView::CurrentBlock(chain_hash))->Block_0 == Some(block),
        node(past, EthQueryView::CurrentStatuses(chain_hash))->Statuses_0 == Some(statuses),
    ensures
        ({
            let whole = by_number_run(
                node,
                past,
                forced,
                by_number_start(forced, place, full),
                fuel,
            );
            let answer = whole.outcome;
            let price = node(past, EthQueryView::GasPrice(chain_hash))->GasPrice_0;
            let parent = parent_run_after(
                node,
                past,
                forced,
                parent_start::<N>(forced, chain_hash),
                hash_bound() + 1,
            );
            let own = hash_run_after(
                node,
                past + parent.effects,
                forced,
                hash_start::<N>(chain_hash),
                hash_bound(),
            );
            &&& answer matches Some(Ok(Some(RichBlockView::WithParentHash(parts, parent_hash))))
            &&& parts.block == block
            &&& parts.statuses.len() == statuses@.len()
            &&& forall|i: int|
                0 <= i < parts.statuses.len() ==> #[trigger] parts.statuses[i] == Some(
                    statuses@[i],
                )
            &&& parts.full == full
            &&& price matches Ok(price) ==> parts.base_fee == Some(price)
            &&& price is Err ==> parts.base_fee is None
            &&& !parts.is_pending
            &&& Some(parent_hash) == parent.outcome
            &&& Some(parts.hash) == own.outcome
            &&& whole.effects == parent.effects + own.effects
        }),
{
    law_block_by_number(node, past, forced, place, full, fuel);
    law_rpc_compatible_parent_hash(node, past, forced, chain_hash, hash_bound() + 1);
    let parent = parent_run_after(
        node,
        past,
        forced,
        parent_start::<N>(forced, chain_hash),
        hash_bound() + 1,
    );
    law_rpc_compatible_hash(node, past + parent.effects, forced, chain_hash, hash_bound());
}

/// A client that asks for the block at a place is answered with nothing, and no error, where the
/// place points at no block and is not that of the pending one, and where the block there or its
/// statuses are missing. An error of the node is passed on, and that a pointer points at no block is
/// an internal error. Nothing is done in any of these cases.
pub proof fn law_place_without_block<N: Node>(
    node: spec_fn(Seq<EthQueryView<N>>, EthQueryView<N>) -> EthReply<N>,
    past: Seq<EthQueryView<N>>,
    forced: Option<Map<H256, H256>>,
    place: BlockNumberOrHash<N>,
    full: bool,
    fuel: nat,
)
    requires
        only_caches_change(node),
        fuel >= find_block_bound() + build_bound(),
    ensures
        ({
            let whole = by_number_run(
                node,
                past,
                forced,
                by_number_start(forced, place, full),
                fuel,
            );
            let id = node(past, EthQueryView::NativeBlockId(place))->Id_0;
            &&& id matches Err(error) ==> whole.effects.len() == 0 && whole.outcome == Some(
                Err::<Option<RichBlockView<N>>, RpcErrorView<N>>(RpcErrorView::Node(error)),
            )
            &&& id matches Ok(None) ==> !(place is Pending) ==> whole.effects.len() == 0 && (
            whole.outcome matches Some(Ok(None)))
            &&& id matches Ok(Some(id)) ==> {
                let chain_hash = node(past, EthQueryView::ChainHashOfId(id))->ChainHash_0;
                &&& chain_hash matches Err(text) ==> whole.effects.len() == 0 && whole.outcome
                    == Some(
                    Err::<Option<RichBlockView<N>>, RpcErrorView<N>>(
                        RpcErrorView::Internal("Expect block number from id: "@ + text@),
                    ),
                )
                &&& chain_hash matches Ok(chain_hash) ==> (node(
                    past,
                    EthQueryView::CurrentBlock(chain_hash),
                )->Block_0 is None || node(
                    past,
                    EthQueryView::CurrentStatuses(chain_hash),
                )->Statuses_0 is None) ==> whole.effects.len() == 0 && (
                whole.outcome matches Some(Ok(None)))
            }
        }),
{
    law_block_by_number(node, past, forced, place, full, fuel);
}

/// A client that asks for the pending block is answered with the one that would follow the best
/// block with the transactions of the pool, those that are ready before those that wait for others:
/// with that very block, all its statuses in their order, the gas price at the best block as its
/// base fee, if that can be read, whole transactions exactly if they were asked for, as pending, and
/// without a hash. There is no answer where the block or its statuses are missing, and an internal
/// error that names the best block where it cannot be built. Nothing is done in any case.
pub proof fn law_pending_block_is_shown<N: Node>(
    node: spec_fn(Seq<EthQueryView<N>>, EthQueryView<N>) -> EthReply<N>,
    past: Seq<EthQueryView<N>>,
    forced: Option<Map<H256, H256>>,
    full: bool,
    best_hash: H256,
    ready: Vec<N::Extrinsic>,
    future: Vec<N::Extrinsic>,
    fuel: nat,
)
    requires
        only_caches_change(node),
        fuel >= find_block_bound() + build_bound(),
        node(past, EthQueryView::NativeBlockId(BlockNumberOrHash::Pending))->Id_0 == Ok::<
            Option<N::BlockId>,
            N::Error,
        >(None),
        node(past, EthQueryView::BestHash)->BestHash_0 == best_hash,
        node(past, EthQueryView::ReadyExtrinsics)->Extrinsics_0 == ready,
        node(past, EthQueryView::FutureExtrinsics)->Extrinsics_0 == future,
    ensures
        ({
            let whole = by_number_run(
                node,
                past,
                forced,
                by_number_start(forced, BlockNumberOrHash::Pending, full),
                fuel,
            );
            let price = node(past, EthQueryView::GasPrice(best_hash))->GasPrice_0;
            let pending = node(
                past,
                EthQueryView::PendingBlock(best_hash, ready@ + future@),
            )->Pending_0;
            &&& whole.effects.len() == 0
            &&& pending matches Err(text) ==> whole.outcome == Some(
                Err::<Option<RichBlockView<N>>, RpcErrorView<N>>(
                    RpcErrorView::Internal("Runtime access error at "@ + text@),
                ),
            )
            &&& pending matches Ok((None, _)) ==> (whole.outcome matches Some(Ok(None)))
            &&& pending matches Ok((_, None)) ==> (whole.outcome matches Some(Ok(None)))
            &&& pending matches Ok((Some(block), Some(statuses))) ==> {
                &&& whole.outcome matches Some(Ok(Some(RichBlockView::Plain(parts))))
                &&& parts.block == block
                &&& parts.statuses.len() == statuses@.len()
                &&& forall|i: int|
                    0 <= i < parts.statuses.len() ==> #[trigger] parts.statuses[i] == Some(
                        statuses@[i],
                    )
                &&& parts.full == full
                &&& price matches Ok(price) ==> parts.base_fee == Some(price)
                &&& price is Err ==> parts.base_fee is None
                &&& parts.is_pending
                &&& parts.hash is None
            }
        }),
{
    law_block_by_number(node, past, forced, BlockNumberOrHash::Pending, full, fuel);
}

/// A client that asks for the number of transactions of the pending block is answered with that of
/// the transactions in the pool that are ready. At any other place it is that of the block there,
/// nothing where there is none, or the node's error. Nothing is done in any case.
pub proof fn law_transactions_at_place_are_counted<N: Node>(
    node: spec_fn(EthQueryView<N>) -> EthReply<N>,
    place: BlockNumberOrHash<N>,
    fuel: nat,
)
    requires
        answers_all(node),
        fuel >= 1,
    ensures
        ({
            let whole = run(
                |state: TransactionCountByNumber, reply: EthReply<N>| state.next(reply),
                |query: EthQueryView<N>| is_effect(query),
                node,
                count_by_number_start(place),
                fuel,
            );
            let known = node(EthQueryView::BlockInfoByNumber(place))->Info_0;
            &&& whole.effects.len() == 0
            &&& place is Pending ==> whole.outcome == Some(
                Ok::<Option<nat>, RpcErrorView<N>>(
                    Some(node(EthQueryView::ReadyCount)->Count_0 as nat),
                ),
            )
            &&& !(place is Pending) ==> {
                &&& known matches Err(error) ==> whole.outcome == Some(
                    Err::<Option<nat>, RpcErrorView<N>>(RpcErrorView::Node(error)),
                )
                &&& known matches Ok(info) ==> (info.block matches Some(block) ==> whole.outcome
                    == Some(
                    Ok::<Option<nat>, RpcErrorView<N>>(Some(block.transactions@.len())),
                ))
                &&& known matches Ok(info) ==> info.block is None ==> whole.outcome == Some(
                    Ok::<Option<nat>, RpcErrorView<N>>(None),
                )
            }
        }),
{
    law_block_transaction_count_by_number(node, place, fuel);
}

} // verus!

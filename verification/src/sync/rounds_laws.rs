//! What several rounds do, by what each of them does alone.

use vstd::prelude::*;

use crate::machine::Step;
use crate::node::Node;
use crate::sync::fetch::{fetch_run, fetch_start, law_fetch_header};
use crate::sync::queries::{answers_all, ChainHeader, SyncQueryView, SyncReply, SyncStrategy};
use crate::sync::round::{sync_one_start, SyncOneBlockView, SyncOptions};
use crate::sync::round_laws::{
    announce, law_sync_one_block, one_run, round, round_over, tips_of_round,
};
use crate::sync::round_order::{is_write, law_listeners};
use crate::sync::rounds::{blocks_run, law_sync_blocks, one_bound, rounds_bound, sync_blocks_start};

verus! {

proof fn lemma_entry_is_of_tip<N: Node>(
    node: spec_fn(SyncQueryView<N>) -> SyncReply<N>,
    options: SyncOptions,
    tips: Seq<N::Hash>,
    i: int,
) -> (picked: (int, ChainHeader<N>))
    requires
        answers_all(node),
        0 <= i < round_over(node, options, tips).effects.len(),
        round_over(node, options, tips).effects[i] is WriteHashes || round_over(
            node,
            options,
            tips,
        ).effects[i] is WriteNone,
    ensures
        ({
            let (index, header) = picked;
            let entry = round_over(node, options, tips).effects[i];
            &&& 0 <= index < tips.len()
            &&& fetch_run(node, fetch_start::<N>(tips[index], options.sync_from), 3).outcome
                == Some(Ok::<Option<ChainHeader<N>>, Seq<char>>(Some(header)))
            &&& entry matches SyncQueryView::WriteHashes(entry) ==> entry.block_hash == header.hash
            &&& entry matches SyncQueryView::WriteNone(hash) ==> hash == header.hash
            &&& header.number@ == 0 || {
                &&& options.strategy == SyncStrategy::Parachain ==> header.number@ <= node(
                    SyncQueryView::BestNumber,
                )->Number_0@
                &&& node(SyncQueryView::RpcCompatibleHash(header.parent_hash))->CompatibleHash_0
                    matches Ok(Some(_))
                &&& node(SyncQueryView::IsSynced(header.parent_hash))->Synced_0 == Ok::<
                    bool,
                    String,
                >(true)
            }
        }),
    decreases tips.len(),
{
    if tips.len() == 0 {
        assert(false);
    }
    law_fetch_header(node, tips.last(), options.sync_from, 3);
    let last = tips.len() - 1;
    match fetch_run(node, fetch_start::<N>(tips.last(), options.sync_from), 3).outcome->0 {
        Ok(Some(header)) => {
            let count = node(SyncQueryView::LockSinks)->SinkCount_0;
            law_listeners(node, header.hash, count);
            let told = announce(node, header.hash, count, Seq::empty()).effects;
            let effects = round_over(node, options, tips).effects;
            if i >= 2 {
                assert(effects[i] == told[i - 2]);
                assert(is_write(told[i - 2]));
            }
            (last, header)
        },
        Ok(None) => lemma_entry_is_of_tip(node, options, tips.drop_last(), i),
        Err(_) => (last, arbitrary()),
    }
}

/// Every entry that a round writes is for the block of a tip whose header was looked up: the
/// genesis block, or a block whose parent is in the mapping with its shown hash and that, on a
/// parachain, is not above the best block.
pub proof fn law_entry_is_due_to_tip<N: Node>(
    node: spec_fn(SyncQueryView<N>) -> SyncReply<N>,
    options: SyncOptions,
    fuel: nat,
    i: int,
) -> (picked: (N::Hash, ChainHeader<N>))
    requires
        answers_all(node),
        fuel >= one_bound(node),
        fuel >= 2,
        0 <= i < one_run(node, sync_one_start::<N>(options), fuel).effects.len(),
        ({
            let entry = one_run(node, sync_one_start::<N>(options), fuel).effects[i];
            entry is WriteHashes || entry is WriteNone
        }),
    ensures
        ({
            let (tip, header) = picked;
            let entry = one_run(node, sync_one_start::<N>(options), fuel).effects[i];
            &&& fetch_run(node, fetch_start::<N>(tip, options.sync_from), 3).outcome == Some(
                Ok::<Option<ChainHeader<N>>, Seq<char>>(Some(header)),
            )
            &&& entry matches SyncQueryView::WriteHashes(entry) ==> entry.block_hash == header.hash
            &&& entry matches SyncQueryView::WriteNone(hash) ==> hash == header.hash
            &&& header.number@ == 0 || {
                &&& options.strategy == SyncStrategy::Parachain ==> header.number@ <= node(
                    SyncQueryView::BestNumber,
                )->Number_0@
                &&& node(SyncQueryView::RpcCompatibleHash(header.parent_hash))->CompatibleHash_0
                    matches Ok(Some(_))
                &&& node(SyncQueryView::IsSynced(header.parent_hash))->Synced_0 == Ok::<
                    bool,
                    String,
                >(true)
            }
        }),
{
    law_sync_one_block(node, options, fuel);
    let tips = tips_of_round(node)->Ok_0;
    let (index, header) = lemma_entry_is_of_tip(node, options, tips, i);
    (tips[index], header)
}

/// Each of several rounds starts as a single round with the same start and strategy does: in the
/// same state and with the same query.
pub proof fn law_each_round_starts_alike<N: Node>(options: SyncOptions, limit: nat)
    requires
        limit > 0,
    ensures
        sync_blocks_start::<N>(options, limit) matches Step::Ask(state, query)
            && sync_one_start::<N>(options) == (Step::<
            SyncOneBlockView<N>,
            SyncQueryView<N>,
            Result<bool, Seq<char>>,
        >::Ask(state.round, query)) && state.options == options && state.remaining == limit - 1,
{
}

/// Several rounds are a single round with the same start and strategy, on the node as it is then,
/// and, if that ended well without moving on, as many rounds as are left. Otherwise the first round
/// is all. No rounds do nothing and move nothing.
pub proof fn law_rounds_are_single_rounds<N: Node>(
    nodes: spec_fn(nat) -> spec_fn(SyncQueryView<N>) -> SyncReply<N>,
    options: SyncOptions,
    limit: nat,
    fuel: nat,
)
    requires
        forall|left: nat| left < limit ==> answers_all(#[trigger] nodes(left)),
        fuel >= rounds_bound(nodes, limit),
    ensures
        ({
            let whole = blocks_run(nodes, sync_blocks_start::<N>(options, limit), fuel);
            &&& limit == 0 ==> whole.effects.len() == 0 && whole.outcome == Some(
                Ok::<bool, Seq<char>>(false),
            )
            &&& limit > 0 ==> {
                let left = (limit - 1) as nat;
                let first = one_run(nodes(left), sync_one_start::<N>(options), fuel);
                let rest = blocks_run(nodes, sync_blocks_start::<N>(options, left), fuel);
                let goes_on = first.outcome == Some(Ok::<bool, Seq<char>>(false));
                &&& forall|i: int|
                    0 <= i < first.effects.len() ==> #[trigger] whole.effects[i] == (
                        left,
                        first.effects[i],
                    )
                &&& !goes_on ==> whole.effects.len() == first.effects.len() && whole.outcome
                    == first.outcome
                &&& goes_on ==> {
                    &&& whole.outcome == rest.outcome
                    &&& whole.effects.len() == first.effects.len() + rest.effects.len()
                    &&& forall|i: int|
                        0 <= i < rest.effects.len() ==> whole.effects[first.effects.len() + i]
                            == #[trigger] rest.effects[i]
                }
            }
        }),
{
    law_sync_blocks(nodes, options, limit, fuel);
    if limit > 0 {
        let left = (limit - 1) as nat;
        law_sync_blocks(nodes, options, left, fuel);
        law_sync_one_block(nodes(left), options, fuel);
    }
}

/// On a parachain no entry that is written in several rounds is for a block, other than the genesis
/// block, above the best block at the time of its round.
pub proof fn law_rounds_do_not_map_above_the_best<N: Node>(
    nodes: spec_fn(nat) -> spec_fn(SyncQueryView<N>) -> SyncReply<N>,
    options: SyncOptions,
    limit: nat,
    fuel: nat,
    i: int,
) -> (picked: (N::Hash, ChainHeader<N>))
    requires
        forall|left: nat| left < limit ==> answers_all(#[trigger] nodes(left)),
        fuel >= rounds_bound(nodes, limit),
        options.strategy == SyncStrategy::Parachain,
        0 <= i < blocks_run(nodes, sync_blocks_start::<N>(options, limit), fuel).effects.len(),
        ({
            let entry = blocks_run(nodes, sync_blocks_start::<N>(options, limit), fuel).effects[i].1;
            entry is WriteHashes || entry is WriteNone
        }),
    ensures
        ({
            let (left, entry) = blocks_run(
                nodes,
                sync_blocks_start::<N>(options, limit),
                fuel,
            ).effects[i];
            let (tip, header) = picked;
            &&& left < limit
            &&& fetch_run(nodes(left), fetch_start::<N>(tip, options.sync_from), 3).outcome == Some(
                Ok::<Option<ChainHeader<N>>, Seq<char>>(Some(header)),
            )
            &&& entry matches SyncQueryView::WriteHashes(entry) ==> entry.block_hash == header.hash
            &&& entry matches SyncQueryView::WriteNone(hash) ==> hash == header.hash
            &&& header.number@ == 0 || header.number@ <= nodes(left)(
                SyncQueryView::BestNumber,
            )->Number_0@
        }),
    decreases limit,
{
    law_rounds_are_single_rounds(nodes, options, limit, fuel);
    let left = (limit - 1) as nat;
    let first = one_run(nodes(left), sync_one_start::<N>(options), fuel);
    let whole = blocks_run(nodes, sync_blocks_start::<N>(options, limit), fuel);
    if i < first.effects.len() {
        assert(whole.effects[i] == (left, first.effects[i]));
        law_entry_is_due_to_tip(nodes(left), options, fuel, i)
    } else {
        let rest = blocks_run(nodes, sync_blocks_start::<N>(options, left), fuel);
        let j = i - first.effects.len();
        assert(whole.effects[first.effects.len() + j] == rest.effects[j]);
        law_rounds_do_not_map_above_the_best(nodes, options, left, fuel, j)
    }
}

} // verus!

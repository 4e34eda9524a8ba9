//! What a whole round amounts to.

use vstd::prelude::*;
use vstd::std_specs::cmp::PartialEqSpec;

use crate::machine::{at, law_change_does_not_show, run, run_after, Run, Step};
use crate::node::Node;
use crate::sync::commit::{due_entry, sync_block_start, SyncBlock};
use crate::sync::fetch::{fetch_outcome, FetchHeader};
use crate::sync::genesis::{due_genesis_entry, sync_genesis_start, SyncGenesisBlock};
use crate::sync::queries::{
    answers, answers_all, is_effect, ChainHeader, EthereumBlockNotification, SyncQueryView,
    SyncReply, SyncStrategy,
};
use crate::sync::round::{
    check_tips, in_genesis, in_mapping, next_sink, operate, sync_one_start, SyncOneBlockView,
    SyncOneStepView, SyncOptions,
};

verus! {

/// The effects and the result of a round.
pub type RoundRun<N> = Run<SyncQueryView<N>, Result<bool, Seq<char>>>;

/// The whole round.
pub open spec fn one_run<N: Node>(
    node: spec_fn(SyncQueryView<N>) -> SyncReply<N>,
    step: SyncOneStepView<N>,
    fuel: nat,
) -> RoundRun<N> {
    run(
        |state: SyncOneBlockView<N>, reply: SyncReply<N>| state.next(reply),
        |query: SyncQueryView<N>| is_effect(query),
        node,
        step,
        fuel,
    )
}

/// Ends a round with nothing more done.
pub open spec fn ended<N: Node>(result: Result<bool, Seq<char>>) -> RoundRun<N> {
    Run { effects: Seq::empty(), outcome: Some(result) }
}

/// Does `query` before the rest.
pub open spec fn after<N: Node>(query: SyncQueryView<N>, rest: RoundRun<N>) -> RoundRun<N> {
    Run { effects: seq![query] + rest.effects, outcome: rest.outcome }
}

/// Writes, and goes on with the rest if that succeeds.
pub open spec fn write_then<N: Node>(
    node: spec_fn(SyncQueryView<N>) -> SyncReply<N>,
    query: SyncQueryView<N>,
    rest: RoundRun<N>,
) -> RoundRun<N> {
    match node(query)->Written_0 {
        Ok(_) => after(query, rest),
        Err(message) => after(query, ended(Err(message@))),
    }
}

/// The news for the listener at the index.
pub open spec fn news<N: Node>(
    node: spec_fn(SyncQueryView<N>) -> SyncReply<N>,
    sink: usize,
    hash: N::Hash,
) -> SyncQueryView<N> {
    SyncQueryView::Send(
        sink,
        EthereumBlockNotification {
            is_new_best: node(SyncQueryView::BestHash(sink))->Hash_0.eq_spec(&hash),
            hash,
        },
    )
}

/// Tells the listeners from the index `keep.len()` on: each gets the news and is kept if it could
/// be reached, unless the node is in a major synchronisation at its turn; then it is let go
/// without the news.
pub open spec fn announce<N: Node>(
    node: spec_fn(SyncQueryView<N>) -> SyncReply<N>,
    hash: N::Hash,
    count: usize,
    keep: Seq<bool>,
) -> RoundRun<N>
    decreases count - keep.len(),
{
    if keep.len() < count {
        let sink = keep.len() as usize;
        if node(SyncQueryView::IsMajorSyncing(sink))->MajorSyncing_0 {
            announce(node, hash, count, keep.push(false))
        } else {
            let query = news(node, sink, hash);
            after(query, announce(node, hash, count, keep.push(node(query)->Sent_0)))
        }
    } else {
        after(SyncQueryView::RetainSinks(keep), ended(Ok(true)))
    }
}

/// Writes the entry that is due, then stores the tips, then tells the listeners.
pub open spec fn settle<N: Node>(
    node: spec_fn(SyncQueryView<N>) -> SyncReply<N>,
    entry: Result<SyncQueryView<N>, Seq<char>>,
    tips: Seq<N::Hash>,
    hash: N::Hash,
) -> RoundRun<N> {
    match entry {
        Err(message) => ended(Err(message)),
        Ok(entry) => write_then(
            node,
            entry,
            write_then(
                node,
                SyncQueryView::WriteCurrentSyncingTips(tips),
                announce(node, hash, node(SyncQueryView::LockSinks)->SinkCount_0, Seq::empty()),
            ),
        ),
    }
}

/// What is done with the block that was picked, `tips` being the tips left.
pub open spec fn operation<N: Node>(
    node: spec_fn(SyncQueryView<N>) -> SyncReply<N>,
    options: SyncOptions,
    tips: Seq<N::Hash>,
    header: ChainHeader<N>,
) -> RoundRun<N> {
    let parent = header.parent_hash;
    if header.number@ == 0 {
        settle(node, due_genesis_entry(node, header.hash), tips, header.hash)
    } else if options.strategy == SyncStrategy::Parachain && header.number@ > node(
        SyncQueryView::BestNumber,
    )->Number_0@ {
        ended(Ok(false))
    } else {
        match (
            node(SyncQueryView::RpcCompatibleHash(parent))->CompatibleHash_0,
            node(SyncQueryView::IsSynced(parent))->Synced_0,
        ) {
            (Err(message), _) => ended(Err(message@)),
            (_, Err(message)) => ended(Err(message@)),
            (Ok(Some(_)), Ok(true)) => settle(
                node,
                due_entry(node, header),
                tips.push(parent),
                header.hash,
            ),
            _ => write_then(
                node,
                SyncQueryView::WriteCurrentSyncingTips(tips.push(header.hash).push(parent)),
                ended(Ok(true)),
            ),
        }
    }
}

/// A round over the given tips: the last tip that still has to be mapped is picked, and those
/// after it are dropped.
pub open spec fn round_over<N: Node>(
    node: spec_fn(SyncQueryView<N>) -> SyncReply<N>,
    options: SyncOptions,
    tips: Seq<N::Hash>,
) -> RoundRun<N>
    decreases tips.len(),
{
    if tips.len() == 0 {
        write_then(
            node,
            SyncQueryView::WriteCurrentSyncingTips(Seq::empty()),
            ended(Ok(false)),
        )
    } else {
        match fetch_outcome(node, tips.last(), options.sync_from) {
            Err(message) => ended(Err(message)),
            Ok(Some(header)) => operation(node, options, tips.drop_last(), header),
            Ok(None) => round_over(node, options, tips.drop_last()),
        }
    }
}

/// The tips that a round goes over: the stored ones, or the leaves of the chain if none is
/// stored.
pub open spec fn tips_of_round<N: Node>(
    node: spec_fn(SyncQueryView<N>) -> SyncReply<N>,
) -> Result<Seq<N::Hash>, Seq<char>> {
    match node(SyncQueryView::CurrentSyncingTips)->Tips_0 {
        Err(message) => Err(message@),
        Ok(tips) => if tips@.len() > 0 {
            Ok(tips@)
        } else {
            match node(SyncQueryView::Leaves)->Tips_0 {
                Err(message) => Err(message@),
                Ok(leaves) => Ok(leaves@),
            }
        },
    }
}

/// What a whole round amounts to, by what the node holds.
pub open spec fn round<N: Node>(
    node: spec_fn(SyncQueryView<N>) -> SyncReply<N>,
    options: SyncOptions,
) -> RoundRun<N> {
    match tips_of_round(node) {
        Err(message) => ended(Err(message)),
        Ok(tips) => if tips.len() == 0 {
            ended(Ok(false))
        } else {
            round_over(node, options, tips)
        },
    }
}

proof fn lemma_announce_ends<N: Node>(
    node: spec_fn(SyncQueryView<N>) -> SyncReply<N>,
    hash: N::Hash,
    count: usize,
    keep: Seq<bool>,
)
    ensures
        announce(node, hash, count, keep).outcome == Some(Ok::<bool, Seq<char>>(true)),
    decreases count - keep.len(),
{
    if keep.len() < count {
        let sink = keep.len() as usize;
        let sent = node(news(node, sink, hash))->Sent_0;
        lemma_announce_ends(node, hash, count, keep.push(false));
        lemma_announce_ends(node, hash, count, keep.push(sent));
    }
}

proof fn lemma_round_over_ends<N: Node>(
    node: spec_fn(SyncQueryView<N>) -> SyncReply<N>,
    options: SyncOptions,
    tips: Seq<N::Hash>,
)
    ensures
        round_over(node, options, tips).outcome is Some,
    decreases tips.len(),
{
    if tips.len() > 0 {
        lemma_round_over_ends(node, options, tips.drop_last());
        if let Ok(Some(header)) = fetch_outcome(node, tips.last(), options.sync_from) {
            let count = node(SyncQueryView::LockSinks)->SinkCount_0;
            lemma_announce_ends(node, header.hash, count, Seq::empty());
        }
    }
}

/// A number of queries that a round over so many tips does not exceed.
pub open spec fn round_bound<N: Node>(
    node: spec_fn(SyncQueryView<N>) -> SyncReply<N>,
    tips: nat,
) -> nat {
    3 * tips + 13 + 3 * node(SyncQueryView::LockSinks)->SinkCount_0 as nat
}

proof fn lemma_announce<N: Node>(
    node: spec_fn(SyncQueryView<N>) -> SyncReply<N>,
    hash: N::Hash,
    count: usize,
    keep: Seq<bool>,
    fuel: nat,
)
    requires
        answers_all(node),
        keep.len() <= count,
        fuel >= 3 * (count - keep.len()) + 1,
    ensures
        one_run(node, next_sink::<N>(hash, count, keep), fuel) == announce(
            node,
            hash,
            count,
            keep,
        ),
    decreases count - keep.len(),
{
    reveal_with_fuel(run, 4);
    if keep.len() < count {
        let sink = keep.len() as usize;
        if node(SyncQueryView::IsMajorSyncing(sink))->MajorSyncing_0 {
            lemma_announce(node, hash, count, keep.push(false), (fuel - 1) as nat);
        } else {
            let sent = node(news(node, sink, hash))->Sent_0;
            lemma_announce(node, hash, count, keep.push(sent), (fuel - 3) as nat);
        }
    }
}

/// The tips as they are stored after the block was mapped.
pub open spec fn store_tips<N: Node>(hash: N::Hash, tips: Seq<N::Hash>) -> SyncOneStepView<N> {
    Step::Ask(
        SyncOneBlockView::TipsWritten { hash },
        SyncQueryView::WriteCurrentSyncingTips(tips),
    )
}

/// What follows once the entry is written.
pub open spec fn store_and_announce<N: Node>(
    node: spec_fn(SyncQueryView<N>) -> SyncReply<N>,
    tips: Seq<N::Hash>,
    hash: N::Hash,
) -> RoundRun<N> {
    write_then(
        node,
        SyncQueryView::WriteCurrentSyncingTips(tips),
        announce(node, hash, node(SyncQueryView::LockSinks)->SinkCount_0, Seq::empty()),
    )
}

proof fn lemma_store_and_announce<N: Node>(
    node: spec_fn(SyncQueryView<N>) -> SyncReply<N>,
    tips: Seq<N::Hash>,
    hash: N::Hash,
    fuel: nat,
)
    requires
        answers_all(node),
        fuel >= 3 * node(SyncQueryView::LockSinks)->SinkCount_0 + 3,
    ensures
        one_run(node, store_tips::<N>(hash, tips), fuel) == store_and_announce(node, tips, hash),
{
    reveal_with_fuel(run, 3);
    let count = node(SyncQueryView::LockSinks)->SinkCount_0;
    lemma_announce(node, hash, count, Seq::empty(), (fuel - 2) as nat);
}

proof fn lemma_genesis<N: Node>(
    node: spec_fn(SyncQueryView<N>) -> SyncReply<N>,
    tips: Seq<N::Hash>,
    hash: N::Hash,
    fuel: nat,
)
    requires
        answers_all(node),
        fuel >= 3 * node(SyncQueryView::LockSinks)->SinkCount_0 + 6,
    ensures
        one_run(node, in_genesis(tips, hash, sync_genesis_start::<N>(hash)), fuel) == settle(
            node,
            due_genesis_entry(node, hash),
            tips,
            hash,
        ),
{
    reveal_with_fuel(run, 4);
    lemma_store_and_announce(node, tips, hash, (fuel - 2) as nat);
    lemma_store_and_announce(node, tips, hash, (fuel - 3) as nat);
}

proof fn lemma_mapping<N: Node>(
    node: spec_fn(SyncQueryView<N>) -> SyncReply<N>,
    tips: Seq<N::Hash>,
    header: ChainHeader<N>,
    fuel: nat,
)
    requires
        answers_all(node),
        header.number@ != 0,
        fuel >= 3 * node(SyncQueryView::LockSinks)->SinkCount_0 + 8,
    ensures
        one_run(
            node,
            in_mapping(tips, header.hash, header.parent_hash, sync_block_start(header)),
            fuel,
        ) == settle(node, due_entry(node, header), tips.push(header.parent_hash), header.hash),
{
    reveal_with_fuel(run, 6);
    let after = tips.push(header.parent_hash);
    lemma_store_and_announce(node, after, header.hash, (fuel - 3) as nat);
    lemma_store_and_announce(node, after, header.hash, (fuel - 4) as nat);
    lemma_store_and_announce(node, after, header.hash, (fuel - 5) as nat);
}

proof fn lemma_operation<N: Node>(
    node: spec_fn(SyncQueryView<N>) -> SyncReply<N>,
    options: SyncOptions,
    tips: Seq<N::Hash>,
    header: ChainHeader<N>,
    fuel: nat,
)
    requires
        answers_all(node),
        fuel >= 3 * node(SyncQueryView::LockSinks)->SinkCount_0 + 11,
    ensures
        one_run(node, operate(options, tips, header), fuel) == operation(
            node,
            options,
            tips,
            header,
        ),
{
    if header.number@ == 0 {
        lemma_genesis(node, tips, header.hash, fuel);
    } else {
        reveal_with_fuel(run, 5);
        lemma_mapping(node, tips, header, (fuel - 2) as nat);
        lemma_mapping(node, tips, header, (fuel - 3) as nat);
    }
}

proof fn lemma_round_over<N: Node>(
    node: spec_fn(SyncQueryView<N>) -> SyncReply<N>,
    options: SyncOptions,
    tips: Seq<N::Hash>,
    fuel: nat,
)
    requires
        answers_all(node),
        fuel >= 3 * tips.len() + 3 * node(SyncQueryView::LockSinks)->SinkCount_0 + 11,
    ensures
        one_run(node, check_tips::<N>(options, tips), fuel) == round_over(node, options, tips),
    decreases tips.len(),
{
    reveal_with_fuel(run, 4);
    if tips.len() > 0 {
        let rest = tips.drop_last();
        lemma_round_over(node, options, rest, (fuel - 2) as nat);
        lemma_round_over(node, options, rest, (fuel - 3) as nat);
        if let Ok(Some(header)) = fetch_outcome(node, tips.last(), options.sync_from) {
            lemma_operation(node, options, rest, header, (fuel - 3) as nat);
        }
    }
}

/// A round comes to its end, whatever the node holds, within a number of queries that depends
/// on the number of tips and of listeners only; and it does what `round` says: it picks the last
/// tip that still has to be mapped, defers it if its parent's turn is first, and otherwise writes
/// the entry that is due, then the tips, then tells the listeners, stopping at the first error.
pub proof fn law_sync_one_block<N: Node>(
    node: spec_fn(SyncQueryView<N>) -> SyncReply<N>,
    options: SyncOptions,
    fuel: nat,
)
    requires
        answers_all(node),
        tips_of_round(node) matches Ok(tips) ==> fuel >= round_bound(node, tips.len()),
        fuel >= 2,
    ensures
        one_run(node, sync_one_start::<N>(options), fuel) == round(node, options),
        round(node, options).outcome is Some,
{
    reveal_with_fuel(run, 3);
    if let Ok(tips) = tips_of_round(node) {
        lemma_round_over_ends(node, options, tips);
        lemma_round_over(node, options, tips, (fuel - 1) as nat);
        lemma_round_over(node, options, tips, (fuel - 2) as nat);
    }
}

/// The query reads what a round may write.
pub open spec fn reads_written<N: Node>(query: SyncQueryView<N>) -> bool {
    query is CurrentSyncingTips || query is IsSynced || query is RpcCompatibleHash
}

/// The node answers every query by a reply of the right kind, and what it answers may depend on
/// what was written before where that is read, but nowhere else.
pub open spec fn only_written_changes<N: Node>(
    node: spec_fn(Seq<SyncQueryView<N>>, SyncQueryView<N>) -> SyncReply<N>,
) -> bool {
    &&& forall|past: Seq<SyncQueryView<N>>, query: SyncQueryView<N>|
        answers(query, #[trigger] node(past, query))
    &&& forall|past: Seq<SyncQueryView<N>>, query: SyncQueryView<N>|
        !reads_written(query) ==> #[trigger] node(past, query) == node(Seq::empty(), query)
}

/// The round asks the query in a state before it has written anything.
spec fn is_early<N: Node>(state: SyncOneBlockView<N>, query: SyncQueryView<N>) -> bool {
    match state {
        SyncOneBlockView::Tips { .. } => query is CurrentSyncingTips,
        SyncOneBlockView::Leaves { .. } => query is Leaves,
        SyncOneBlockView::Fetching { fetch, .. } => match fetch {
            FetchHeader::Synced { .. } => query is IsSynced,
            FetchHeader::CompatibleHash { .. } => query is RpcCompatibleHash,
            FetchHeader::Header { .. } => query is Header,
        },
        SyncOneBlockView::Genesis { genesis, .. } => match genesis {
            SyncGenesisBlock::Version { .. } => query is ApiVersion,
            SyncGenesisBlock::Block { .. } => query is RuntimeBlock || query is LegacyRuntimeBlock,
            SyncGenesisBlock::Written => false,
        },
        SyncOneBlockView::BestNumber { .. } => query is BestNumber,
        SyncOneBlockView::ParentHash { .. } => query is RpcCompatibleHash,
        SyncOneBlockView::ParentSynced { .. } => query is IsSynced,
        SyncOneBlockView::Mapping { mapping, .. } => match mapping {
            SyncBlock::Parent { .. } => query is RpcCompatibleHash,
            SyncBlock::Log { .. } => query is FindLog,
            SyncBlock::StoredForHashes { .. } => query is StoredBlock,
            SyncBlock::StoredForBlockHash { .. } => query is StoredBlock,
            SyncBlock::Hashes { .. } => query is HashesFromBlock,
            SyncBlock::Written => false,
        },
        _ => false,
    }
}

/// The round asks the query in a state in which it no longer reads what it writes.
spec fn is_late<N: Node>(state: SyncOneBlockView<N>, query: SyncQueryView<N>) -> bool {
    match state {
        SyncOneBlockView::NothingLeft
        | SyncOneBlockView::Deferred
        | SyncOneBlockView::TipsWritten { .. } => query is WriteCurrentSyncingTips,
        SyncOneBlockView::Genesis { genesis, .. } => genesis is Written && (query is WriteHashes
            || query is WriteNone),
        SyncOneBlockView::Mapping { mapping, .. } => mapping is Written && (query is WriteHashes
            || query is WriteNone),
        SyncOneBlockView::Sinks { .. } => query is LockSinks,
        SyncOneBlockView::MajorSyncing { .. } => query is IsMajorSyncing,
        SyncOneBlockView::BestHash { .. } => query is BestHash,
        SyncOneBlockView::Sent { .. } => query is Send,
        SyncOneBlockView::Retained => query is RetainSinks,
        _ => false,
    }
}

/// A round reads nothing that it has written: on a node on which what is written can be read from
/// then on, it does what `round` says for the node as it is at the start.
pub proof fn law_round_does_not_read_its_writes<N: Node>(
    node: spec_fn(Seq<SyncQueryView<N>>, SyncQueryView<N>) -> SyncReply<N>,
    past: Seq<SyncQueryView<N>>,
    options: SyncOptions,
    fuel: nat,
)
    requires
        only_written_changes(node),
        tips_of_round(at(node, past)) matches Ok(tips) ==> fuel >= round_bound(
            at(node, past),
            tips.len(),
        ),
        fuel >= 2,
    ensures
        run_after(
            |state: SyncOneBlockView<N>, reply: SyncReply<N>| state.next(reply),
            |query: SyncQueryView<N>| is_effect(query),
            node,
            past,
            sync_one_start::<N>(options),
            fuel,
        ) == round(at(node, past), options),
{
    law_sync_one_block(at(node, past), options, fuel);
    law_change_does_not_show(
        |state: SyncOneBlockView<N>, reply: SyncReply<N>| state.next(reply),
        |query: SyncQueryView<N>| is_effect(query),
        node,
        |state: SyncOneBlockView<N>, query: SyncQueryView<N>| is_early(state, query),
        |state: SyncOneBlockView<N>, query: SyncQueryView<N>| is_late(state, query),
        past,
        past,
        sync_one_start::<N>(options),
        fuel,
    );
}

} // verus!

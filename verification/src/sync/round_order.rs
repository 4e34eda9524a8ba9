//! What holds of every round: the order in which blocks are mapped, and what a failure leaves.

use vstd::prelude::*;

use crate::machine::Run;
use crate::node::Node;
use crate::sync::fetch::fetch_outcome;
use crate::sync::queries::{ChainHeader, SyncQueryView, SyncReply, SyncStrategy};
use crate::sync::round::SyncOptions;
use crate::sync::round_laws::{
    announce, news, operation, round, round_over, tips_of_round, RoundRun,
};

verus! {

/// The query writes to the mapping or to the stored tips.
pub open spec fn is_write<N: Node>(query: SyncQueryView<N>) -> bool {
    query is WriteHashes || query is WriteNone || query is WriteCurrentSyncingTips
}

/// The query writes the entry of a block.
pub open spec fn is_entry<N: Node>(query: SyncQueryView<N>) -> bool {
    query is WriteHashes || query is WriteNone
}

/// The listeners that are kept: those that are told, the node not being in a major
/// synchronisation at their turn, and that could be reached.
pub open spec fn kept_sinks<N: Node>(
    node: spec_fn(SyncQueryView<N>) -> SyncReply<N>,
    hash: N::Hash,
    count: usize,
) -> Seq<bool> {
    Seq::new(
        count as nat,
        |sink: int|
            !node(SyncQueryView::IsMajorSyncing(sink as usize))->MajorSyncing_0 && node(
                news(node, sink as usize, hash),
            )->Sent_0,
    )
}

proof fn lemma_announce<N: Node>(
    node: spec_fn(SyncQueryView<N>) -> SyncReply<N>,
    hash: N::Hash,
    count: usize,
    keep: Seq<bool>,
)
    requires
        keep.len() <= count,
        keep == kept_sinks(node, hash, count).take(keep.len() as int),
    ensures
        announce(node, hash, count, keep).outcome == Some(Ok::<bool, Seq<char>>(true)),
        announce(node, hash, count, keep).effects.len() > 0,
        announce(node, hash, count, keep).effects.last() == (SyncQueryView::<N>::RetainSinks(
            kept_sinks(node, hash, count),
        )),
        forall|i: int|
            0 <= i < announce(node, hash, count, keep).effects.len() ==> !is_write(
                #[trigger] announce(node, hash, count, keep).effects[i],
            ),
        forall|sink: usize|
            #![trigger news(node, sink, hash)]
            keep.len() <= sink < count ==> (announce(node, hash, count, keep).effects.contains(
                news(node, sink, hash),
            ) <==> !node(SyncQueryView::IsMajorSyncing(sink))->MajorSyncing_0),
        forall|i: int|
            0 <= i < announce(node, hash, count, keep).effects.len() ==> ((
            #[trigger] announce(node, hash, count, keep).effects[i]) matches SyncQueryView::Send(
                sink,
                _,
            ) ==> keep.len() <= sink < count),
    decreases count - keep.len(),
{
    let kept = kept_sinks(node, hash, count);
    let whole = announce(node, hash, count, keep).effects;
    if keep.len() < count {
        let sink = keep.len() as usize;
        if node(SyncQueryView::IsMajorSyncing(sink))->MajorSyncing_0 {
            assert(keep.push(false) =~= kept.take(keep.len() as int + 1));
            lemma_announce(node, hash, count, keep.push(false));
        } else {
            let query = news(node, sink, hash);
            let sent = node(query)->Sent_0;
            assert(keep.push(sent) =~= kept.take(keep.len() as int + 1));
            lemma_announce(node, hash, count, keep.push(sent));
            let rest = announce(node, hash, count, keep.push(sent)).effects;
            assert(whole =~= seq![query] + rest);
            assert(whole[0] == query);
            assert forall|later: usize|
                #![trigger news(node, later, hash)]
                keep.len() < later < count implies (whole.contains(news(node, later, hash))
                <==> rest.contains(news(node, later, hash))) by {
                if rest.contains(news(node, later, hash)) {
                    let i = rest.index_of(news(node, later, hash));
                    assert(whole[i + 1] == rest[i]);
                }
                if whole.contains(news(node, later, hash)) {
                    let i = whole.index_of(news(node, later, hash));
                    assert(i > 0);
                    assert(rest[i - 1] == whole[i]);
                }
            }
        }
    } else {
        assert(keep =~= kept);
        assert(whole =~= seq![SyncQueryView::<N>::RetainSinks(kept)]);
    }
}

/// The listeners who get the news are those at whose turn the node is not in a major
/// synchronisation, and those kept are those of them that could be reached. The listeners are let
/// go at the very end. Nothing is written meanwhile.
pub proof fn law_listeners<N: Node>(
    node: spec_fn(SyncQueryView<N>) -> SyncReply<N>,
    hash: N::Hash,
    count: usize,
)
    ensures
        announce(node, hash, count, Seq::empty()).outcome == Some(Ok::<bool, Seq<char>>(true)),
        announce(node, hash, count, Seq::empty()).effects.last() == (SyncQueryView::<
            N,
        >::RetainSinks(kept_sinks(node, hash, count))),
        forall|i: int|
            0 <= i < announce(node, hash, count, Seq::empty()).effects.len() ==> !is_write(
                #[trigger] announce(node, hash, count, Seq::empty()).effects[i],
            ),
        forall|sink: usize|
            #![trigger news(node, sink, hash)]
            sink < count ==> (announce(node, hash, count, Seq::empty()).effects.contains(
                news(node, sink, hash),
            ) <==> !node(SyncQueryView::IsMajorSyncing(sink))->MajorSyncing_0),
{
    assert(Seq::<bool>::empty() =~= kept_sinks(node, hash, count).take(0));
    lemma_announce(node, hash, count, Seq::empty());
}

/// In `whole`, a failed write is the last thing done, and its error is the result.
pub open spec fn stops_at_failure<N: Node>(
    node: spec_fn(SyncQueryView<N>) -> SyncReply<N>,
    whole: RoundRun<N>,
) -> bool {
    forall|i: int|
        0 <= i < whole.effects.len() && is_write(#[trigger] whole.effects[i]) && node(
            whole.effects[i],
        )->Written_0 is Err ==> {
            &&& i == whole.effects.len() - 1
            &&& whole.outcome == Some(
                Err::<bool, Seq<char>>((node(whole.effects[i])->Written_0)->Err_0@),
            )
        }
}

proof fn lemma_operation_stops<N: Node>(
    node: spec_fn(SyncQueryView<N>) -> SyncReply<N>,
    options: SyncOptions,
    tips: Seq<N::Hash>,
    header: ChainHeader<N>,
)
    ensures
        stops_at_failure(node, operation(node, options, tips, header)),
{
    let count = node(SyncQueryView::LockSinks)->SinkCount_0;
    assert(Seq::<bool>::empty() =~= kept_sinks(node, header.hash, count).take(0));
    lemma_announce(node, header.hash, count, Seq::empty());
}

proof fn lemma_round_over_stops<N: Node>(
    node: spec_fn(SyncQueryView<N>) -> SyncReply<N>,
    options: SyncOptions,
    tips: Seq<N::Hash>,
)
    ensures
        stops_at_failure(node, round_over(node, options, tips)),
    decreases tips.len(),
{
    if tips.len() > 0 {
        lemma_round_over_stops(node, options, tips.drop_last());
        if let Ok(Some(header)) = fetch_outcome(node, tips.last(), options.sync_from) {
            lemma_operation_stops(node, options, tips.drop_last(), header);
        }
    }
}

/// Once a write fails, a round does nothing more and reports that write's error. So the tips are
/// not stored where the entry of the block could not be written, and no listener is told.
pub proof fn law_failed_write_ends_round<N: Node>(
    node: spec_fn(SyncQueryView<N>) -> SyncReply<N>,
    options: SyncOptions,
)
    ensures
        stops_at_failure(node, round(node, options)),
{
    if let Ok(tips) = tips_of_round(node) {
        lemma_round_over_stops(node, options, tips);
    }
}

/// The header of the block that a round over the given tips picks.
pub open spec fn picked<N: Node>(
    node: spec_fn(SyncQueryView<N>) -> SyncReply<N>,
    options: SyncOptions,
    tips: Seq<N::Hash>,
) -> Option<ChainHeader<N>>
    decreases tips.len(),
{
    if tips.len() == 0 {
        None
    } else {
        match fetch_outcome(node, tips.last(), options.sync_from) {
            Err(_) => None,
            Ok(Some(header)) => Some(header),
            Ok(None) => picked(node, options, tips.drop_last()),
        }
    }
}

proof fn lemma_entry_is_of_picked_block<N: Node>(
    node: spec_fn(SyncQueryView<N>) -> SyncReply<N>,
    options: SyncOptions,
    tips: Seq<N::Hash>,
    i: int,
)
    requires
        0 <= i < round_over(node, options, tips).effects.len(),
        is_entry(round_over(node, options, tips).effects[i]),
    ensures
        picked(node, options, tips) matches Some(header) && (header.number@ == 0 || {
            &&& node(SyncQueryView::IsSynced(header.parent_hash))->Synced_0 == Ok::<bool, String>(
                true,
            )
            &&& node(SyncQueryView::RpcCompatibleHash(header.parent_hash))->CompatibleHash_0
                matches Ok(Some(_))
            &&& options.strategy == SyncStrategy::Parachain ==> header.number@ <= node(
                SyncQueryView::BestNumber,
            )->Number_0@
        }),
    decreases tips.len(),
{
    if tips.len() > 0 {
        if fetch_outcome(node, tips.last(), options.sync_from) matches Ok(None) {
            lemma_entry_is_of_picked_block(node, options, tips.drop_last(), i);
        }
    }
}

/// An entry is written for a block other than the genesis block only if its parent is in the
/// mapping and has the hash that Ethereum clients are shown, and, where only blocks up to the best
/// block are mapped, if it is not above the best block.
pub proof fn law_parents_are_mapped_first<N: Node>(
    node: spec_fn(SyncQueryView<N>) -> SyncReply<N>,
    options: SyncOptions,
    i: int,
)
    requires
        0 <= i < round(node, options).effects.len(),
        is_entry(round(node, options).effects[i]),
    ensures
        tips_of_round(node) is Ok,
        picked(node, options, tips_of_round(node)->Ok_0) matches Some(header) && (header.number@
            == 0 || {
            &&& node(SyncQueryView::IsSynced(header.parent_hash))->Synced_0 == Ok::<bool, String>(
                true,
            )
            &&& node(SyncQueryView::RpcCompatibleHash(header.parent_hash))->CompatibleHash_0
                matches Ok(Some(_))
            &&& options.strategy == SyncStrategy::Parachain ==> header.number@ <= node(
                SyncQueryView::BestNumber,
            )->Number_0@
        }),
{
    lemma_entry_is_of_picked_block(node, options, tips_of_round(node)->Ok_0, i);
}

/// A block whose parent's turn is first is put back below its parent: nothing is written to the
/// mapping, and a round that finds the tips as they were stored then looks at the parent first,
/// and at the block itself before any of the other tips.
pub proof fn law_deferred_block_waits_for_parent<N: Node>(
    node: spec_fn(SyncQueryView<N>) -> SyncReply<N>,
    later: spec_fn(SyncQueryView<N>) -> SyncReply<N>,
    options: SyncOptions,
    tips: Seq<N::Hash>,
    header: ChainHeader<N>,
)
    requires
        header.number@ != 0,
        options.strategy == SyncStrategy::Parachain ==> header.number@ <= node(
            SyncQueryView::BestNumber,
        )->Number_0@,
        node(SyncQueryView::RpcCompatibleHash(header.parent_hash))->CompatibleHash_0 is Ok,
        node(SyncQueryView::IsSynced(header.parent_hash))->Synced_0 is Ok,
        (node(SyncQueryView::RpcCompatibleHash(header.parent_hash))->CompatibleHash_0)->Ok_0
            is None || !((node(SyncQueryView::IsSynced(header.parent_hash))->Synced_0)->Ok_0),
        later(SyncQueryView::CurrentSyncingTips)->Tips_0 is Ok,
        operation(node, options, tips, header).effects == seq![
            SyncQueryView::<N>::WriteCurrentSyncingTips(
                (later(SyncQueryView::CurrentSyncingTips)->Tips_0)->Ok_0@,
            ),
        ],
    ensures
        operation(node, options, tips, header).effects == seq![
            SyncQueryView::<N>::WriteCurrentSyncingTips(
                tips.push(header.hash).push(header.parent_hash),
            ),
        ],
        round(later, options) == (match fetch_outcome(
            later,
            header.parent_hash,
            options.sync_from,
        ) {
            Err(message) => (Run {
                effects: Seq::<SyncQueryView<N>>::empty(),
                outcome: Some(Err::<bool, Seq<char>>(message)),
            }),
            Ok(Some(parent)) => operation(later, options, tips.push(header.hash), parent),
            Ok(None) => round_over(later, options, tips.push(header.hash)),
        }),
{
    let stored = tips.push(header.hash).push(header.parent_hash);
    let writes = operation(node, options, tips, header).effects;
    assert(writes =~= seq![SyncQueryView::<N>::WriteCurrentSyncingTips(stored)]);
    assert(writes[0] == SyncQueryView::<N>::WriteCurrentSyncingTips(stored));
    let found = (later(SyncQueryView::CurrentSyncingTips)->Tips_0)->Ok_0@;
    assert(writes[0] == SyncQueryView::<N>::WriteCurrentSyncingTips(found));
    assert(found == stored);
    assert(stored.drop_last() =~= tips.push(header.hash));
}

/// A round that reports that it did not move on has written nothing to the mapping and told no
/// listener: all that it may have done is to store that no tip is left.
pub proof fn law_idle_round_changes_nothing<N: Node>(
    node: spec_fn(SyncQueryView<N>) -> SyncReply<N>,
    options: SyncOptions,
)
    requires
        round(node, options).outcome == Some(Ok::<bool, Seq<char>>(false)),
    ensures
        round(node, options).effects == Seq::<SyncQueryView<N>>::empty() || round(
            node,
            options,
        ).effects == seq![SyncQueryView::<N>::WriteCurrentSyncingTips(Seq::empty())],
{
    if let Ok(tips) = tips_of_round(node) {
        if tips.len() > 0 {
            lemma_idle_round_over(node, options, tips);
        }
    }
}

proof fn lemma_idle_round_over<N: Node>(
    node: spec_fn(SyncQueryView<N>) -> SyncReply<N>,
    options: SyncOptions,
    tips: Seq<N::Hash>,
)
    requires
        round_over(node, options, tips).outcome == Some(Ok::<bool, Seq<char>>(false)),
    ensures
        round_over(node, options, tips).effects == Seq::<SyncQueryView<N>>::empty() || round_over(
            node,
            options,
            tips,
        ).effects == seq![SyncQueryView::<N>::WriteCurrentSyncingTips(Seq::empty())],
    decreases tips.len(),
{
    if tips.len() > 0 {
        match fetch_outcome(node, tips.last(), options.sync_from) {
            Ok(None) => lemma_idle_round_over(node, options, tips.drop_last()),
            Ok(Some(header)) => {
                let count = node(SyncQueryView::LockSinks)->SinkCount_0;
                assert(Seq::<bool>::empty() =~= kept_sinks(node, header.hash, count).take(0));
                lemma_announce(node, header.hash, count, Seq::empty());
            },
            Err(_) => {},
        }
    }
}

} // verus!

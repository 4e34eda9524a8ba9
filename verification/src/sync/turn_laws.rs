//! What a round does, from what the node holds to what is written and told.

use vstd::prelude::*;
use vstd::std_specs::cmp::PartialEqSpec;

use crate::node::Node;
use crate::sync::commit::{law_sync_block, sync_block_run, sync_block_start};
use crate::sync::fetch::{fetch_run, fetch_start, law_fetch_header};
use crate::sync::genesis::{law_sync_genesis_block, sync_genesis_run, sync_genesis_start};
use crate::sync::queries::{
    answers_all, ChainHeader, EthereumBlockNotification, SyncQueryView, SyncReply, SyncStrategy,
};
use crate::sync::round::{sync_one_start, SyncOptions};
use crate::sync::round_laws::{
    announce, law_sync_one_block, news, one_run, operation, round_over, tips_of_round,
};

verus! {

/// Tips that are passed over are dropped, and the one before them is picked.
proof fn lemma_picked<N: Node>(
    node: spec_fn(SyncQueryView<N>) -> SyncReply<N>,
    options: SyncOptions,
    tips: Seq<N::Hash>,
    index: int,
)
    requires
        answers_all(node),
        0 <= index < tips.len(),
        forall|later: int|
            index < later < tips.len() ==> fetch_run(
                node,
                fetch_start::<N>(#[trigger] tips[later], options.sync_from),
                3,
            ).outcome == Some(Ok::<Option<ChainHeader<N>>, Seq<char>>(None)),
    ensures
        round_over(node, options, tips) == round_over(node, options, tips.take(index + 1)),
        tips.take(index + 1).last() == tips[index],
        tips.take(index + 1).drop_last() == tips.take(index),
    decreases tips.len(),
{
    assert(tips.take(index + 1).drop_last() =~= tips.take(index));
    if index + 1 == tips.len() {
        assert(tips.take(index + 1) =~= tips);
    } else {
        let shorter = tips.drop_last();
        let last = tips[tips.len() - 1];
        law_fetch_header(node, last, options.sync_from, 3);
        assert forall|later: int| index < later < shorter.len() implies fetch_run(
            node,
            fetch_start::<N>(#[trigger] shorter[later], options.sync_from),
            3,
        ).outcome == Some(Ok::<Option<ChainHeader<N>>, Seq<char>>(None)) by {
            assert(shorter[later] == tips[later]);
        }
        lemma_picked(node, options, shorter, index);
        assert(shorter.take(index + 1) =~= tips.take(index + 1));
    }
}

/// A round fails, or is idle, and changes nothing, where the tips or, no tip being stored, the
/// leaves cannot be read, and where there are no leaves.
pub proof fn law_round_without_tips<N: Node>(
    node: spec_fn(SyncQueryView<N>) -> SyncReply<N>,
    options: SyncOptions,
    fuel: nat,
)
    requires
        answers_all(node),
        fuel >= 2,
    ensures
        ({
            let whole = one_run(node, sync_one_start::<N>(options), fuel);
            let stored = node(SyncQueryView::CurrentSyncingTips)->Tips_0;
            let leaves = node(SyncQueryView::Leaves)->Tips_0;
            let none = stored matches Ok(tips) && tips@.len() == 0;
            &&& stored matches Err(message) ==> whole.effects.len() == 0 && whole.outcome == Some(
                Err::<bool, Seq<char>>(message@),
            )
            &&& none ==> (leaves matches Err(message) ==> whole.effects.len() == 0 && whole.outcome
                == Some(Err::<bool, Seq<char>>(message@)))
            &&& none ==> (leaves matches Ok(tips) ==> tips@.len() == 0 ==> whole.effects.len() == 0
                && whole.outcome == Some(Ok::<bool, Seq<char>>(false)))
        }),
{
    reveal_with_fuel(crate::machine::run, 3);
}

/// Where no tip is left to be mapped, a round stores that there are none, and is idle.
pub proof fn law_round_with_nothing_left<N: Node>(
    node: spec_fn(SyncQueryView<N>) -> SyncReply<N>,
    options: SyncOptions,
    tips: Seq<N::Hash>,
    fuel: nat,
)
    requires
        answers_all(node),
        node(SyncQueryView::CurrentSyncingTips)->Tips_0 matches Ok(stored) && if stored@.len() > 0 {
            tips == stored@
        } else {
            node(SyncQueryView::Leaves)->Tips_0 matches Ok(leaves) && tips == leaves@
        },
        fuel >= 3 * tips.len() + 13 + 3 * node(SyncQueryView::LockSinks)->SinkCount_0,
        tips.len() > 0,
        forall|i: int|
            0 <= i < tips.len() ==> fetch_run(
                node,
                fetch_start::<N>(#[trigger] tips[i], options.sync_from),
                3,
            ).outcome == Some(Ok::<Option<ChainHeader<N>>, Seq<char>>(None)),
    ensures
        ({
            let whole = one_run(node, sync_one_start::<N>(options), fuel);
            &&& whole.effects == seq![SyncQueryView::<N>::WriteCurrentSyncingTips(Seq::empty())]
            &&& node(whole.effects[0])->Written_0 matches Ok(_) ==> whole.outcome == Some(
                Ok::<bool, Seq<char>>(false),
            )
            &&& node(whole.effects[0])->Written_0 matches Err(message) ==> whole.outcome == Some(
                Err::<bool, Seq<char>>(message@),
            )
        }),
{
    law_sync_one_block(node, options, fuel);
    lemma_picked(node, options, tips, 0);
    law_fetch_header(node, tips[0], options.sync_from, 3);
    assert(tips.take(0) =~= Seq::<N::Hash>::empty());
    assert(round_over(node, options, tips.take(1)) == round_over(node, options, tips.take(0)));
    let whole = one_run(node, sync_one_start::<N>(options), fuel);
    assert(whole.effects =~= seq![
        SyncQueryView::<N>::WriteCurrentSyncingTips(Seq::empty()),
    ]);
}

/// A lookup that fails ends the round with its error, and nothing is changed.
pub proof fn law_failed_lookup_ends_round<N: Node>(
    node: spec_fn(SyncQueryView<N>) -> SyncReply<N>,
    options: SyncOptions,
    tips: Seq<N::Hash>,
    index: int,
    message: Seq<char>,
    fuel: nat,
)
    requires
        answers_all(node),
        node(SyncQueryView::CurrentSyncingTips)->Tips_0 matches Ok(stored) && if stored@.len() > 0 {
            tips == stored@
        } else {
            node(SyncQueryView::Leaves)->Tips_0 matches Ok(leaves) && tips == leaves@
        },
        fuel >= 3 * tips.len() + 13 + 3 * node(SyncQueryView::LockSinks)->SinkCount_0,
        0 <= index < tips.len(),
        forall|later: int|
            index < later < tips.len() ==> fetch_run(
                node,
                fetch_start::<N>(#[trigger] tips[later], options.sync_from),
                3,
            ).outcome == Some(Ok::<Option<ChainHeader<N>>, Seq<char>>(None)),
        fetch_run(node, fetch_start::<N>(tips[index], options.sync_from), 3).outcome == Some(
            Err::<Option<ChainHeader<N>>, Seq<char>>(message),
        ),
    ensures
        one_run(node, sync_one_start::<N>(options), fuel).effects.len() == 0,
        one_run(node, sync_one_start::<N>(options), fuel).outcome == Some(
            Err::<bool, Seq<char>>(message),
        ),
{
    law_sync_one_block(node, options, fuel);
    lemma_picked(node, options, tips, index);
    law_fetch_header(node, tips[index], options.sync_from, 3);
}

proof fn lemma_operates<N: Node>(
    node: spec_fn(SyncQueryView<N>) -> SyncReply<N>,
    options: SyncOptions,
    tips: Seq<N::Hash>,
    index: int,
    header: ChainHeader<N>,
    fuel: nat,
)
    requires
        answers_all(node),
        node(SyncQueryView::CurrentSyncingTips)->Tips_0 matches Ok(stored) && if stored@.len() > 0 {
            tips == stored@
        } else {
            node(SyncQueryView::Leaves)->Tips_0 matches Ok(leaves) && tips == leaves@
        },
        fuel >= 3 * tips.len() + 13 + 3 * node(SyncQueryView::LockSinks)->SinkCount_0,
        0 <= index < tips.len(),
        forall|later: int|
            index < later < tips.len() ==> fetch_run(
                node,
                fetch_start::<N>(#[trigger] tips[later], options.sync_from),
                3,
            ).outcome == Some(Ok::<Option<ChainHeader<N>>, Seq<char>>(None)),
        fetch_run(node, fetch_start::<N>(tips[index], options.sync_from), 3).outcome == Some(
            Ok::<Option<ChainHeader<N>>, Seq<char>>(Some(header)),
        ),
    ensures
        one_run(node, sync_one_start::<N>(options), fuel) == operation(
            node,
            options,
            tips.take(index),
            header,
        ),
{
    law_sync_one_block(node, options, fuel);
    lemma_picked(node, options, tips, index);
    law_fetch_header(node, tips[index], options.sync_from, 3);
    assert(tips_of_round(node) == Ok::<Seq<N::Hash>, Seq<char>>(tips));
    assert(round_over(node, options, tips.take(index + 1)) == operation(
        node,
        options,
        tips.take(index),
        header,
    ));
}

/// On a parachain a round over a block above the best one, other than the genesis block, is idle
/// and changes nothing.
pub proof fn law_block_above_the_best_waits<N: Node>(
    node: spec_fn(SyncQueryView<N>) -> SyncReply<N>,
    options: SyncOptions,
    tips: Seq<N::Hash>,
    index: int,
    header: ChainHeader<N>,
    fuel: nat,
)
    requires
        answers_all(node),
        node(SyncQueryView::CurrentSyncingTips)->Tips_0 matches Ok(stored) && if stored@.len() > 0 {
            tips == stored@
        } else {
            node(SyncQueryView::Leaves)->Tips_0 matches Ok(leaves) && tips == leaves@
        },
        fuel >= 3 * tips.len() + 13 + 3 * node(SyncQueryView::LockSinks)->SinkCount_0,
        0 <= index < tips.len(),
        forall|later: int|
            index < later < tips.len() ==> fetch_run(
                node,
                fetch_start::<N>(#[trigger] tips[later], options.sync_from),
                3,
            ).outcome == Some(Ok::<Option<ChainHeader<N>>, Seq<char>>(None)),
        fetch_run(node, fetch_start::<N>(tips[index], options.sync_from), 3).outcome == Some(
            Ok::<Option<ChainHeader<N>>, Seq<char>>(Some(header)),
        ),
        header.number@ != 0,
        options.strategy == SyncStrategy::Parachain,
        header.number@ > node(SyncQueryView::BestNumber)->Number_0@,
    ensures
        one_run(node, sync_one_start::<N>(options), fuel).effects.len() == 0,
        one_run(node, sync_one_start::<N>(options), fuel).outcome == Some(
            Ok::<bool, Seq<char>>(false),
        ),
{
    lemma_operates(node, options, tips, index, header, fuel);
}

/// Where it cannot be read whether the parent is mapped, the round fails and changes nothing; its
/// error is that of the shown hash, if that cannot be read.
pub proof fn law_unreadable_parent_ends_round<N: Node>(
    node: spec_fn(SyncQueryView<N>) -> SyncReply<N>,
    options: SyncOptions,
    tips: Seq<N::Hash>,
    index: int,
    header: ChainHeader<N>,
    fuel: nat,
)
    requires
        answers_all(node),
        node(SyncQueryView::CurrentSyncingTips)->Tips_0 matches Ok(stored) && if stored@.len() > 0 {
            tips == stored@
        } else {
            node(SyncQueryView::Leaves)->Tips_0 matches Ok(leaves) && tips == leaves@
        },
        fuel >= 3 * tips.len() + 13 + 3 * node(SyncQueryView::LockSinks)->SinkCount_0,
        0 <= index < tips.len(),
        forall|later: int|
            index < later < tips.len() ==> fetch_run(
                node,
                fetch_start::<N>(#[trigger] tips[later], options.sync_from),
                3,
            ).outcome == Some(Ok::<Option<ChainHeader<N>>, Seq<char>>(None)),
        fetch_run(node, fetch_start::<N>(tips[index], options.sync_from), 3).outcome == Some(
            Ok::<Option<ChainHeader<N>>, Seq<char>>(Some(header)),
        ),
        header.number@ != 0,
        options.strategy == SyncStrategy::Parachain ==> header.number@ <= node(
            SyncQueryView::BestNumber,
        )->Number_0@,
    ensures
        ({
            let whole = one_run(node, sync_one_start::<N>(options), fuel);
            let shown = node(
                SyncQueryView::RpcCompatibleHash(header.parent_hash),
            )->CompatibleHash_0;
            let synced = node(SyncQueryView::IsSynced(header.parent_hash))->Synced_0;
            &&& shown matches Err(message) ==> whole.effects.len() == 0 && whole.outcome == Some(
                Err::<bool, Seq<char>>(message@),
            )
            &&& shown is Ok ==> (synced matches Err(message) ==> whole.effects.len() == 0
                && whole.outcome == Some(Err::<bool, Seq<char>>(message@)))
        }),
{
    lemma_operates(node, options, tips, index, header, fuel);
}

/// A block whose parent is not in the mapping, or has no shown hash, is put back under its parent:
/// all that is done is to store the tips before it, then the block, then its parent.
pub proof fn law_block_is_put_back_under_parent<N: Node>(
    node: spec_fn(SyncQueryView<N>) -> SyncReply<N>,
    options: SyncOptions,
    tips: Seq<N::Hash>,
    index: int,
    header: ChainHeader<N>,
    fuel: nat,
)
    requires
        answers_all(node),
        node(SyncQueryView::CurrentSyncingTips)->Tips_0 matches Ok(stored) && if stored@.len() > 0 {
            tips == stored@
        } else {
            node(SyncQueryView::Leaves)->Tips_0 matches Ok(leaves) && tips == leaves@
        },
        fuel >= 3 * tips.len() + 13 + 3 * node(SyncQueryView::LockSinks)->SinkCount_0,
        0 <= index < tips.len(),
        forall|later: int|
            index < later < tips.len() ==> fetch_run(
                node,
                fetch_start::<N>(#[trigger] tips[later], options.sync_from),
                3,
            ).outcome == Some(Ok::<Option<ChainHeader<N>>, Seq<char>>(None)),
        fetch_run(node, fetch_start::<N>(tips[index], options.sync_from), 3).outcome == Some(
            Ok::<Option<ChainHeader<N>>, Seq<char>>(Some(header)),
        ),
        header.number@ != 0,
        options.strategy == SyncStrategy::Parachain ==> header.number@ <= node(
            SyncQueryView::BestNumber,
        )->Number_0@,
        node(SyncQueryView::RpcCompatibleHash(header.parent_hash))->CompatibleHash_0 matches Ok(
            shown,
        ) && (node(SyncQueryView::IsSynced(header.parent_hash))->Synced_0 matches Ok(synced) && (
        shown is None || !synced)),
    ensures
        ({
            let whole = one_run(node, sync_one_start::<N>(options), fuel);
            &&& whole.effects.len() == 1
            &&& whole.effects[0] matches SyncQueryView::WriteCurrentSyncingTips(stored)
            &&& stored == tips.take(index) + seq![header.hash, header.parent_hash]
            &&& node(whole.effects[0])->Written_0 matches Ok(_) ==> whole.outcome == Some(
                Ok::<bool, Seq<char>>(true),
            )
            &&& node(whole.effects[0])->Written_0 matches Err(message) ==> whole.outcome == Some(
                Err::<bool, Seq<char>>(message@),
            )
        }),
{
    lemma_operates(node, options, tips, index, header, fuel);
    assert(tips.take(index).push(header.hash).push(header.parent_hash) =~= tips.take(index) + seq![
        header.hash,
        header.parent_hash,
    ]);
}

#[verifier::rlimit(40)]
proof fn lemma_told<N: Node>(
    node: spec_fn(SyncQueryView<N>) -> SyncReply<N>,
    hash: N::Hash,
    count: usize,
    keep: Seq<bool>,
)
    requires
        keep.len() <= count,
        forall|sink: int|
            0 <= sink < keep.len() ==> #[trigger] keep[sink] == (!node(
                SyncQueryView::IsMajorSyncing(sink as usize),
            )->MajorSyncing_0 && node(news(node, sink as usize, hash))->Sent_0),
    ensures
        ({
            let told = announce(node, hash, count, keep).effects;
            &&& announce(node, hash, count, keep).outcome == Some(Ok::<bool, Seq<char>>(true))
            &&& told.len() > 0
            &&& told.last() matches SyncQueryView::RetainSinks(kept)
            &&& kept.len() == count
            &&& forall|sink: int|
                0 <= sink < count ==> #[trigger] kept[sink] == (!node(
                    SyncQueryView::IsMajorSyncing(sink as usize),
                )->MajorSyncing_0 && node(news(node, sink as usize, hash))->Sent_0)
            &&& forall|i: int|
                0 <= i < told.len() - 1 ==> ((#[trigger] told[i]) matches SyncQueryView::Send(
                    sink,
                    _,
                ) && keep.len() <= sink < count && told[i] == news(node, sink, hash) && !node(
                    SyncQueryView::IsMajorSyncing(sink),
                )->MajorSyncing_0)
            &&& forall|i: int, j: int|
                0 <= i < j < told.len() - 1 ==> (#[trigger] told[i])->Send_0 < (
                #[trigger] told[j])->Send_0
            &&& forall|sink: usize|
                keep.len() <= sink < count && !(#[trigger] node(
                    SyncQueryView::IsMajorSyncing(sink),
                )->MajorSyncing_0) ==> exists|i: int|
                    0 <= i < told.len() - 1 && #[trigger] told[i] == news(node, sink, hash)
        }),
    decreases count - keep.len(),
{
    let told = announce(node, hash, count, keep).effects;
    if keep.len() < count {
        let sink = keep.len() as usize;
        if node(SyncQueryView::IsMajorSyncing(sink))->MajorSyncing_0 {
            lemma_told(node, hash, count, keep.push(false));
        } else {
            let query = news(node, sink, hash);
            let longer = keep.push(node(query)->Sent_0);
            lemma_told(node, hash, count, longer);
            let rest = announce(node, hash, count, longer).effects;
            assert(told =~= seq![query] + rest);
            assert(told[0] == query);
            assert forall|i: int| 1 <= i < told.len() implies #[trigger] told[i] == rest[i - 1] by {
            }
            assert forall|other: usize|
                keep.len() <= other < count && !(#[trigger] node(
                    SyncQueryView::IsMajorSyncing(other),
                )->MajorSyncing_0) implies exists|i: int|
                0 <= i < told.len() - 1 && #[trigger] told[i] == news(node, other, hash) by {
                if other > sink {
                    let i = choose|i: int|
                        0 <= i < rest.len() - 1 && #[trigger] rest[i] == news(node, other, hash);
                    assert(told[i + 1] == rest[i]);
                }
            }
        }
    } else {
        assert(told =~= seq![SyncQueryView::<N>::RetainSinks(keep)]);
    }
}

/// The tips that are stored once the block is mapped.
spec fn tips_left<N: Node>(tips: Seq<N::Hash>, header: ChainHeader<N>) -> Seq<N::Hash> {
    if header.number@ == 0 {
        tips
    } else {
        tips.push(header.parent_hash)
    }
}

#[verifier::rlimit(40)]
proof fn lemma_mapped<N: Node>(
    node: spec_fn(SyncQueryView<N>) -> SyncReply<N>,
    options: SyncOptions,
    tips: Seq<N::Hash>,
    index: int,
    header: ChainHeader<N>,
    fuel: nat,
)
    requires
        answers_all(node),
        node(SyncQueryView::CurrentSyncingTips)->Tips_0 matches Ok(stored) && if stored@.len() > 0 {
            tips == stored@
        } else {
            node(SyncQueryView::Leaves)->Tips_0 matches Ok(leaves) && tips == leaves@
        },
        fuel >= 3 * tips.len() + 13 + 3 * node(SyncQueryView::LockSinks)->SinkCount_0,
        0 <= index < tips.len(),
        forall|later: int|
            index < later < tips.len() ==> fetch_run(
                node,
                fetch_start::<N>(#[trigger] tips[later], options.sync_from),
                3,
            ).outcome == Some(Ok::<Option<ChainHeader<N>>, Seq<char>>(None)),
        fetch_run(node, fetch_start::<N>(tips[index], options.sync_from), 3).outcome == Some(
            Ok::<Option<ChainHeader<N>>, Seq<char>>(Some(header)),
        ),
        header.number@ == 0 || {
            &&& options.strategy == SyncStrategy::Parachain ==> header.number@ <= node(
                SyncQueryView::BestNumber,
            )->Number_0@
            &&& node(SyncQueryView::RpcCompatibleHash(header.parent_hash))->CompatibleHash_0
                matches Ok(Some(_))
            &&& node(SyncQueryView::IsSynced(header.parent_hash))->Synced_0 == Ok::<bool, String>(
                true,
            )
        },
    ensures
        ({
            let whole = one_run(node, sync_one_start::<N>(options), fuel);
            let alone = if header.number@ == 0 {
                sync_genesis_run(node, sync_genesis_start::<N>(header.hash), 3)
            } else {
                sync_block_run(node, sync_block_start(header), 5)
            };
            let store = SyncQueryView::<N>::WriteCurrentSyncingTips(
                tips_left(tips.take(index), header),
            );
            let count = node(SyncQueryView::LockSinks)->SinkCount_0;
            let told = announce(node, header.hash, count, Seq::empty());
            &&& alone.outcome matches Some(Err(message)) ==> whole.effects == alone.effects
                && whole.outcome == Some(Err::<bool, Seq<char>>(message))
            &&& alone.outcome is Some
            &&& alone.outcome matches Some(Ok(_)) ==> {
                &&& alone.effects.len() == 1
                &&& node(store)->Written_0 is Ok ==> whole.effects == seq![
                    alone.effects[0],
                    store,
                ] + told.effects && whole.outcome == told.outcome
                &&& node(store)->Written_0 matches Err(message) ==> whole.effects == seq![
                    alone.effects[0],
                    store,
                ] && whole.outcome == Some(Err::<bool, Seq<char>>(message@))
            }
        }),
{
    lemma_operates(node, options, tips, index, header, fuel);
    law_sync_block(node, header, 5);
    law_sync_genesis_block(node, header.hash, 3);
    let whole = one_run(node, sync_one_start::<N>(options), fuel);
    let alone = if header.number@ == 0 {
        sync_genesis_run(node, sync_genesis_start::<N>(header.hash), 3)
    } else {
        sync_block_run(node, sync_block_start(header), 5)
    };
    let store = SyncQueryView::<N>::WriteCurrentSyncingTips(tips_left(tips.take(index), header));
    let count = node(SyncQueryView::LockSinks)->SinkCount_0;
    let told = announce(node, header.hash, count, Seq::empty());
    if alone.outcome matches Some(Err(_)) {
        assert(whole.effects =~= alone.effects);
    } else if node(store)->Written_0 is Ok {
        assert(whole.effects =~= seq![alone.effects[0], store] + told.effects);
    } else {
        assert(whole.effects =~= seq![alone.effects[0], store]);
    }
}

/// The genesis block, and a block whose parent is in the mapping with its shown hash, is mapped by
/// the round that picks it. The round writes the very entry that the mapping of the block by itself
/// writes, and ends there with the error, if that fails. Then it stores the tips before the block,
/// and, but for the genesis block, its parent as the last one; and ends there with the error, if
/// that fails. Otherwise the round has moved on, and writes nothing more.
#[verifier::rlimit(40)]
pub proof fn law_picked_block_is_mapped<N: Node>(
    node: spec_fn(SyncQueryView<N>) -> SyncReply<N>,
    options: SyncOptions,
    tips: Seq<N::Hash>,
    index: int,
    header: ChainHeader<N>,
    fuel: nat,
)
    requires
        answers_all(node),
        node(SyncQueryView::CurrentSyncingTips)->Tips_0 matches Ok(stored) && if stored@.len() > 0 {
            tips == stored@
        } else {
            node(SyncQueryView::Leaves)->Tips_0 matches Ok(leaves) && tips == leaves@
        },
        fuel >= 3 * tips.len() + 13 + 3 * node(SyncQueryView::LockSinks)->SinkCount_0,
        0 <= index < tips.len(),
        forall|later: int|
            index < later < tips.len() ==> fetch_run(
                node,
                fetch_start::<N>(#[trigger] tips[later], options.sync_from),
                3,
            ).outcome == Some(Ok::<Option<ChainHeader<N>>, Seq<char>>(None)),
        fetch_run(node, fetch_start::<N>(tips[index], options.sync_from), 3).outcome == Some(
            Ok::<Option<ChainHeader<N>>, Seq<char>>(Some(header)),
        ),
        header.number@ == 0 || {
            &&& options.strategy == SyncStrategy::Parachain ==> header.number@ <= node(
                SyncQueryView::BestNumber,
            )->Number_0@
            &&& node(SyncQueryView::RpcCompatibleHash(header.parent_hash))->CompatibleHash_0
                matches Ok(Some(_))
            &&& node(SyncQueryView::IsSynced(header.parent_hash))->Synced_0 == Ok::<bool, String>(
                true,
            )
        },
    ensures
        ({
            let whole = one_run(node, sync_one_start::<N>(options), fuel);
            let alone = if header.number@ == 0 {
                sync_genesis_run(node, sync_genesis_start::<N>(header.hash), 3)
            } else {
                sync_block_run(node, sync_block_start(header), 5)
            };
            &&& alone.outcome is Some
            &&& alone.outcome matches Some(Err(message)) ==> whole.effects == alone.effects
                && whole.outcome == Some(Err::<bool, Seq<char>>(message))
            &&& alone.outcome matches Some(Ok(_)) ==> {
                &&& alone.effects.len() == 1
                &&& whole.effects.len() >= 2
                &&& whole.effects[0] == alone.effects[0]
                &&& whole.effects[1] matches SyncQueryView::WriteCurrentSyncingTips(stored)
                &&& header.number@ == 0 ==> stored == tips.take(index)
                &&& header.number@ != 0 ==> stored == tips.take(index).push(header.parent_hash)
                &&& node(whole.effects[1])->Written_0 matches Err(message) ==> whole.effects.len()
                    == 2 && whole.outcome == Some(Err::<bool, Seq<char>>(message@))
                &&& node(whole.effects[1])->Written_0 is Ok ==> whole.outcome == Some(
                    Ok::<bool, Seq<char>>(true),
                )
                &&& forall|i: int|
                    2 <= i < whole.effects.len() ==> (#[trigger] whole.effects[i]) is Send
                        || whole.effects[i] is RetainSinks
            }
        }),
{
    lemma_mapped(node, options, tips, index, header, fuel);
    let whole = one_run(node, sync_one_start::<N>(options), fuel);
    let alone = if header.number@ == 0 {
        sync_genesis_run(node, sync_genesis_start::<N>(header.hash), 3)
    } else {
        sync_block_run(node, sync_block_start(header), 5)
    };
    let store = SyncQueryView::<N>::WriteCurrentSyncingTips(tips_left(tips.take(index), header));
    if alone.outcome matches Some(Ok(_)) {
        if node(store)->Written_0 is Ok {
            let count = node(SyncQueryView::LockSinks)->SinkCount_0;
            lemma_told(node, header.hash, count, Seq::empty());
            lemma_told_after(node, header.hash, whole.effects, alone.effects[0], store);
            assert forall|i: int| 2 <= i < whole.effects.len() implies (
            #[trigger] whole.effects[i]) is Send || whole.effects[i] is RetainSinks by {
                if i == whole.effects.len() - 1 {
                    assert(whole.effects[i] == whole.effects.last());
                }
            }
        }
    }
}

#[verifier::rlimit(40)]
proof fn lemma_told_after<N: Node>(
    node: spec_fn(SyncQueryView<N>) -> SyncReply<N>,
    hash: N::Hash,
    effects: Seq<SyncQueryView<N>>,
    entry: SyncQueryView<N>,
    store: SyncQueryView<N>,
)
    requires
        effects == seq![entry, store] + announce(
            node,
            hash,
            node(SyncQueryView::LockSinks)->SinkCount_0,
            Seq::empty(),
        ).effects,
    ensures
        ({
            let count = node(SyncQueryView::LockSinks)->SinkCount_0;
            &&& effects.len() >= 3
            &&& effects.last() matches SyncQueryView::RetainSinks(kept)
            &&& kept.len() == count
            &&& forall|sink: int|
                0 <= sink < count ==> #[trigger] kept[sink] == (!node(
                    SyncQueryView::IsMajorSyncing(sink as usize),
                )->MajorSyncing_0 && node(
                    SyncQueryView::Send(
                        sink as usize,
                        EthereumBlockNotification {
                            is_new_best: node(
                                SyncQueryView::BestHash(sink as usize),
                            )->Hash_0.eq_spec(&hash),
                            hash,
                        },
                    ),
                )->Sent_0)
            &&& forall|i: int|
                2 <= i < effects.len() - 1 ==> ((#[trigger] effects[i]) matches SyncQueryView::Send(
                    sink,
                    notification,
                ) && sink < count && notification.hash == hash && notification.is_new_best
                    == node(SyncQueryView::BestHash(sink))->Hash_0.eq_spec(&hash) && !node(
                    SyncQueryView::IsMajorSyncing(sink),
                )->MajorSyncing_0)
            &&& forall|i: int, j: int|
                2 <= i < j < effects.len() - 1 ==> (#[trigger] effects[i])->Send_0 < (
                #[trigger] effects[j])->Send_0
            &&& forall|sink: usize|
                sink < count && !(#[trigger] node(
                    SyncQueryView::IsMajorSyncing(sink),
                )->MajorSyncing_0) ==> exists|i: int|
                    2 <= i < effects.len() - 1 && (#[trigger] effects[i])->Send_0 == sink
        }),
{
    let count = node(SyncQueryView::LockSinks)->SinkCount_0;
    lemma_told(node, hash, count, Seq::empty());
    let told = announce(node, hash, count, Seq::empty()).effects;
    assert(effects.len() == 2 + told.len());
    assert forall|i: int| 2 <= i < effects.len() implies #[trigger] effects[i] == told[i - 2] by {
    }
    assert(effects.last() == told.last());
    assert forall|sink: usize|
        sink < count && !(#[trigger] node(
            SyncQueryView::IsMajorSyncing(sink),
        )->MajorSyncing_0) implies exists|i: int|
        2 <= i < effects.len() - 1 && (#[trigger] effects[i])->Send_0 == sink by {
        let i = choose|i: int|
            0 <= i < told.len() - 1 && #[trigger] told[i] == news(node, sink, hash);
        assert(effects[i + 2] == told[i]);
    }
}

/// Once a round has written the entry of the block that it picked and the tips, every listener at
/// whose turn the node is not in a major synchronisation is told, in order and once, and of nothing
/// but that block, which is said to be the new best one exactly if it is the best block at that
/// turn. Last, those listeners are kept that were told and could be reached.
#[verifier::rlimit(40)]
pub proof fn law_listeners_are_told_of_mapped_block<N: Node>(
    node: spec_fn(SyncQueryView<N>) -> SyncReply<N>,
    options: SyncOptions,
    tips: Seq<N::Hash>,
    index: int,
    header: ChainHeader<N>,
    fuel: nat,
)
    requires
        answers_all(node),
        node(SyncQueryView::CurrentSyncingTips)->Tips_0 matches Ok(stored) && if stored@.len() > 0 {
            tips == stored@
        } else {
            node(SyncQueryView::Leaves)->Tips_0 matches Ok(leaves) && tips == leaves@
        },
        fuel >= 3 * tips.len() + 13 + 3 * node(SyncQueryView::LockSinks)->SinkCount_0,
        0 <= index < tips.len(),
        forall|later: int|
            index < later < tips.len() ==> fetch_run(
                node,
                fetch_start::<N>(#[trigger] tips[later], options.sync_from),
                3,
            ).outcome == Some(Ok::<Option<ChainHeader<N>>, Seq<char>>(None)),
        fetch_run(node, fetch_start::<N>(tips[index], options.sync_from), 3).outcome == Some(
            Ok::<Option<ChainHeader<N>>, Seq<char>>(Some(header)),
        ),
        header.number@ == 0 || {
            &&& options.strategy == SyncStrategy::Parachain ==> header.number@ <= node(
                SyncQueryView::BestNumber,
            )->Number_0@
            &&& node(SyncQueryView::RpcCompatibleHash(header.parent_hash))->CompatibleHash_0
                matches Ok(Some(_))
            &&& node(SyncQueryView::IsSynced(header.parent_hash))->Synced_0 == Ok::<bool, String>(
                true,
            )
        },
        ({
            let alone = if header.number@ == 0 {
                sync_genesis_run(node, sync_genesis_start::<N>(header.hash), 3)
            } else {
                sync_block_run(node, sync_block_start(header), 5)
            };
            alone.outcome matches Some(Ok(_))
        }),
        node(
            SyncQueryView::WriteCurrentSyncingTips(
                if header.number@ == 0 {
                    tips.take(index)
                } else {
                    tips.take(index).push(header.parent_hash)
                },
            ),
        )->Written_0 is Ok,
    ensures
        ({
            let effects = one_run(node, sync_one_start::<N>(options), fuel).effects;
            let count = node(SyncQueryView::LockSinks)->SinkCount_0;
            &&& effects.len() >= 3
            &&& effects.last() matches SyncQueryView::RetainSinks(kept)
            &&& kept.len() == count
            &&& forall|sink: int|
                0 <= sink < count ==> #[trigger] kept[sink] == (!node(
                    SyncQueryView::IsMajorSyncing(sink as usize),
                )->MajorSyncing_0 && node(
                    SyncQueryView::Send(
                        sink as usize,
                        EthereumBlockNotification {
                            is_new_best: node(
                                SyncQueryView::BestHash(sink as usize),
                            )->Hash_0.eq_spec(&header.hash),
                            hash: header.hash,
                        },
                    ),
                )->Sent_0)
            &&& forall|i: int|
                2 <= i < effects.len() - 1 ==> ((#[trigger] effects[i]) matches SyncQueryView::Send(
                    sink,
                    notification,
                ) && sink < count && notification.hash == header.hash && notification.is_new_best
                    == node(SyncQueryView::BestHash(sink))->Hash_0.eq_spec(&header.hash) && !node(
                    SyncQueryView::IsMajorSyncing(sink),
                )->MajorSyncing_0)
            &&& forall|i: int, j: int|
                2 <= i < j < effects.len() - 1 ==> (#[trigger] effects[i])->Send_0 < (
                #[trigger] effects[j])->Send_0
            &&& forall|sink: usize|
                sink < count && !(#[trigger] node(
                    SyncQueryView::IsMajorSyncing(sink),
                )->MajorSyncing_0) ==> exists|i: int|
                    2 <= i < effects.len() - 1 && (#[trigger] effects[i])->Send_0 == sink
        }),
{
    let effects = one_run(node, sync_one_start::<N>(options), fuel).effects;
    let alone = if header.number@ == 0 {
        sync_genesis_run(node, sync_genesis_start::<N>(header.hash), 3)
    } else {
        sync_block_run(node, sync_block_start(header), 5)
    };
    let store = SyncQueryView::<N>::WriteCurrentSyncingTips(tips_left(tips.take(index), header));
    let count = node(SyncQueryView::LockSinks)->SinkCount_0;
    assert(effects == seq![alone.effects[0], store] + announce(
        node,
        header.hash,
        count,
        Seq::empty(),
    ).effects) by {
        lemma_mapped(node, options, tips, index, header, fuel);
    }
    lemma_told_after(node, header.hash, effects, alone.effects[0], store);
}

} // verus!

//! That a whole chain is mapped, round after round.

use vstd::prelude::*;

use crate::hashing::ethereum_hash_of;
use crate::node::Node;
use crate::primitives::H256;
use crate::sync::commit::due_entry;
use crate::sync::fetch::fetch_outcome;
use crate::sync::genesis::due_genesis_entry;
use crate::sync::queries::{
    ChainHeader, Log, PostLog, PreLog, SyncQueryView, SyncReply, SyncStrategy,
};
use crate::sync::round::SyncOptions;
use crate::sync::round_laws::{announce, operation, round, round_over, settle, tips_of_round};
use crate::sync::round_order::{is_write, law_listeners};

verus! {

/// The headers, from the genesis block on, are those of a chain.
pub open spec fn is_chain<N: Node>(headers: Seq<ChainHeader<N>>) -> bool {
    &&& headers.len() > 0
    &&& forall|i: int| 0 <= i < headers.len() ==> (#[trigger] headers[i]).number@ == i
    &&& forall|i: int, j: int|
        0 <= i < headers.len() && 0 <= j < headers.len() && i != j ==> (#[trigger] headers[i]).hash
            != (#[trigger] headers[j]).hash
    &&& forall|i: int|
        0 < i < headers.len() ==> (#[trigger] headers[i].parent_hash) == headers[i - 1].hash
}

/// The node has the Ethereum block that belongs to the header.
pub open spec fn has_block<N: Node>(
    node: spec_fn(SyncQueryView<N>) -> SyncReply<N>,
    header: ChainHeader<N>,
) -> bool {
    let stored = node(SyncQueryView::StoredBlock(header.hash))->StoredBlock_0;
    match node(SyncQueryView::FindLog(header.digest))->Log_0 {
        Ok(Log::Pre(PreLog::Block(_))) => true,
        Ok(Log::Post(PostLog::Block(_))) => true,
        Ok(Log::Post(PostLog::Hashes(_))) => stored is Some,
        Ok(Log::Post(PostLog::BlockHash(expected))) => stored matches Some(block)
            && ethereum_hash_of(block.header@) == expected,
        Err(_) => false,
    }
}

/// The node holds the chain, with the last block as its leaf, has the Ethereum block to each of
/// its blocks, and can be written to.
pub open spec fn serves<N: Node>(
    node: spec_fn(SyncQueryView<N>) -> SyncReply<N>,
    options: SyncOptions,
    headers: Seq<ChainHeader<N>>,
) -> bool {
    &&& node(SyncQueryView::Leaves)->Tips_0 matches Ok(leaves) && leaves@ == seq![
        headers.last().hash,
    ]
    &&& forall|i: int|
        0 <= i < headers.len() ==> node(
            SyncQueryView::Header((#[trigger] headers[i]).hash),
        )->Header_0 == Ok::<Option<ChainHeader<N>>, ()>(Some(headers[i]))
    &&& forall|i: int| 0 < i < headers.len() ==> has_block(node, #[trigger] headers[i])
    &&& due_genesis_entry(node, headers[0].hash) matches Ok(SyncQueryView::WriteHashes(_))
    &&& forall|query: SyncQueryView<N>|
        is_write(query) ==> (#[trigger] node(query))->Written_0 is Ok
    &&& options.strategy == SyncStrategy::Parachain ==> node(SyncQueryView::BestNumber)->Number_0@
        >= headers.len() - 1
}

/// The block is in the mapping, with the hash that Ethereum clients are shown.
pub open spec fn is_mapped<N: Node>(
    node: spec_fn(SyncQueryView<N>) -> SyncReply<N>,
    hash: N::Hash,
) -> bool {
    &&& node(SyncQueryView::IsSynced(hash))->Synced_0 == Ok::<bool, String>(true)
    &&& node(SyncQueryView::RpcCompatibleHash(hash))->CompatibleHash_0 matches Ok(Some(_))
}

/// The block is not in the mapping.
pub open spec fn is_unmapped<N: Node>(
    node: spec_fn(SyncQueryView<N>) -> SyncReply<N>,
    hash: N::Hash,
) -> bool {
    &&& node(SyncQueryView::IsSynced(hash))->Synced_0 == Ok::<bool, String>(false)
    &&& node(SyncQueryView::RpcCompatibleHash(hash))->CompatibleHash_0 == Ok::<
        Option<H256>,
        String,
    >(None)
}

/// Of the chain, the first `count` blocks are mapped and no others.
pub open spec fn mapped_up_to<N: Node>(
    node: spec_fn(SyncQueryView<N>) -> SyncReply<N>,
    headers: Seq<ChainHeader<N>>,
    count: int,
) -> bool {
    forall|i: int|
        0 <= i < headers.len() ==> if i < count {
            is_mapped(node, (#[trigger] headers[i]).hash)
        } else {
            is_unmapped(node, headers[i].hash)
        }
}

/// The query writes an entry for the block with the hash.
pub open spec fn is_entry_of<N: Node>(query: SyncQueryView<N>, hash: N::Hash) -> bool {
    match query {
        SyncQueryView::WriteHashes(entry) => entry.block_hash == hash,
        SyncQueryView::WriteNone(other) => other == hash,
        _ => false,
    }
}

/// The query writes an entry for the block with the hash that Ethereum clients are shown.
pub open spec fn is_full_entry_of<N: Node>(query: SyncQueryView<N>, hash: N::Hash) -> bool {
    query matches SyncQueryView::WriteHashes(entry) && entry.block_hash == hash
        && entry.rpc_compatible_block_hash is Some
}

/// The later node holds what was written to the one before: the tips that were stored last, each
/// full entry, and, for a block of which no entry was written, what was there before.
pub open spec fn keeps<N: Node>(
    node: spec_fn(SyncQueryView<N>) -> SyncReply<N>,
    effects: Seq<SyncQueryView<N>>,
    later: spec_fn(SyncQueryView<N>) -> SyncReply<N>,
) -> bool {
    &&& forall|i: int|
        0 <= i < effects.len() && (#[trigger] effects[i]) is WriteCurrentSyncingTips && (forall|
            j: int,
        |
            i < j < effects.len() ==> !((#[trigger] effects[j]) is WriteCurrentSyncingTips)) ==> (
        later(SyncQueryView::CurrentSyncingTips)->Tips_0 matches Ok(stored) && stored@
            == effects[i]->WriteCurrentSyncingTips_0)
    &&& forall|i: int, hash: N::Hash|
        0 <= i < effects.len() && #[trigger] is_full_entry_of(effects[i], hash) ==> is_mapped(
            later,
            hash,
        )
    &&& forall|hash: N::Hash|
        (forall|i: int| 0 <= i < effects.len() ==> !is_entry_of(#[trigger] effects[i], hash)) ==> {
            &&& #[trigger] later(SyncQueryView::IsSynced(hash)) == node(
                SyncQueryView::IsSynced(hash),
            )
            &&& later(SyncQueryView::RpcCompatibleHash(hash)) == node(
                SyncQueryView::RpcCompatibleHash(hash),
            )
        }
}

/// The hashes of the chain's blocks from the last one down to the one with the number.
pub open spec fn down_to<N: Node>(headers: Seq<ChainHeader<N>>, number: int) -> Seq<N::Hash> {
    Seq::new(
        (headers.len() - number) as nat,
        |i: int| headers[headers.len() - 1 - i].hash,
    )
}

/// The tips while the blocks are mapped from the one with the number up.
pub open spec fn are_rising_tips<N: Node>(
    headers: Seq<ChainHeader<N>>,
    number: int,
    tips: Seq<N::Hash>,
) -> bool {
    ||| tips == down_to(headers, number)
    ||| number >= 2 && tips == down_to(headers, number).push(headers[number - 2].hash)
}

proof fn lemma_down_to<N: Node>(headers: Seq<ChainHeader<N>>, number: int)
    requires
        0 <= number < headers.len(),
    ensures
        down_to(headers, number).len() > 0,
        down_to(headers, number).last() == headers[number].hash,
        down_to(headers, number).drop_last() == down_to(headers, number + 1),
        down_to(headers, number) == down_to(headers, number + 1).push(headers[number].hash),
{
    assert(down_to(headers, number).drop_last() =~= down_to(headers, number + 1));
    assert(down_to(headers, number) =~= down_to(headers, number + 1).push(headers[number].hash));
}

/// A block whose parent is not mapped is put back below it.
proof fn lemma_going_down<N: Node>(
    node: spec_fn(SyncQueryView<N>) -> SyncReply<N>,
    options: SyncOptions,
    headers: Seq<ChainHeader<N>>,
    count: int,
    number: int,
)
    requires
        is_chain(headers),
        serves(node, options, headers),
        mapped_up_to(node, headers, count),
        0 <= count < number < headers.len(),
        options.sync_from@ <= count,
        tips_of_round(node) == Ok::<Seq<N::Hash>, Seq<char>>(down_to(headers, number)),
    ensures
        round(node, options).outcome == Some(Ok::<bool, Seq<char>>(true)),
        round(node, options).effects == seq![
            SyncQueryView::<N>::WriteCurrentSyncingTips(down_to(headers, number - 1)),
        ],
{
    lemma_down_to(headers, number);
    lemma_down_to(headers, number - 1);
    let header = headers[number];
    let parent = headers[number - 1];
    assert(is_unmapped(node, header.hash));
    assert(is_unmapped(node, parent.hash));
    assert(fetch_outcome(node, header.hash, options.sync_from) == Ok::<
        Option<ChainHeader<N>>,
        Seq<char>,
    >(Some(header)));
    let query = SyncQueryView::<N>::WriteCurrentSyncingTips(down_to(headers, number - 1));
    assert(is_write(query));
    assert(node(query)->Written_0 is Ok);
    assert(round(node, options).effects =~= seq![query]);
}

/// Where the tips are rising, the lowest block that is not mapped is picked.
proof fn lemma_picks_lowest<N: Node>(
    node: spec_fn(SyncQueryView<N>) -> SyncReply<N>,
    options: SyncOptions,
    headers: Seq<ChainHeader<N>>,
    number: int,
    tips: Seq<N::Hash>,
)
    requires
        is_chain(headers),
        serves(node, options, headers),
        mapped_up_to(node, headers, number),
        0 <= number < headers.len(),
        options.sync_from@ <= number,
        tips_of_round(node) == Ok::<Seq<N::Hash>, Seq<char>>(tips),
        are_rising_tips(headers, number, tips),
    ensures
        round(node, options) == operation(
            node,
            options,
            down_to(headers, number + 1),
            headers[number],
        ),
{
    lemma_down_to(headers, number);
    let header = headers[number];
    let lowest = down_to(headers, number);
    assert(is_unmapped(node, header.hash));
    assert(fetch_outcome(node, header.hash, options.sync_from) == Ok::<
        Option<ChainHeader<N>>,
        Seq<char>,
    >(Some(header)));
    assert(round_over(node, options, lowest) == operation(
        node,
        options,
        down_to(headers, number + 1),
        header,
    ));
    if tips != lowest {
        assert(is_mapped(node, headers[number - 2].hash));
        assert(tips.drop_last() =~= lowest);
        assert(round_over(node, options, tips) == round_over(node, options, lowest));
    }
}

/// Where every write succeeds, the entry is written, then the tips, and then nothing more.
proof fn lemma_settles<N: Node>(
    node: spec_fn(SyncQueryView<N>) -> SyncReply<N>,
    entry: SyncQueryView<N>,
    tips: Seq<N::Hash>,
    hash: N::Hash,
)
    requires
        node(entry)->Written_0 is Ok,
        node(SyncQueryView::WriteCurrentSyncingTips(tips))->Written_0 is Ok,
    ensures
        ({
            let whole = settle(node, Ok(entry), tips, hash);
            &&& whole.outcome == Some(Ok::<bool, Seq<char>>(true))
            &&& whole.effects.len() >= 2
            &&& whole.effects[0] == entry
            &&& whole.effects[1] == SyncQueryView::<N>::WriteCurrentSyncingTips(tips)
            &&& forall|i: int|
                2 <= i < whole.effects.len() ==> !is_write(#[trigger] whole.effects[i])
        }),
{
    let listeners = node(SyncQueryView::LockSinks)->SinkCount_0;
    law_listeners(node, hash, listeners);
    let news = announce(node, hash, listeners, Seq::empty()).effects;
    let store = SyncQueryView::<N>::WriteCurrentSyncingTips(tips);
    let whole = settle(node, Ok(entry), tips, hash);
    assert(whole.effects =~= seq![entry, store] + news);
    assert forall|i: int| 2 <= i < whole.effects.len() implies !is_write(
        #[trigger] whole.effects[i],
    ) by {
        assert(whole.effects[i] == news[i - 2]);
    }
}

/// The lowest block that is not mapped is mapped.
proof fn lemma_going_up<N: Node>(
    node: spec_fn(SyncQueryView<N>) -> SyncReply<N>,
    options: SyncOptions,
    headers: Seq<ChainHeader<N>>,
    number: int,
    tips: Seq<N::Hash>,
) -> (after: Seq<N::Hash>)
    requires
        is_chain(headers),
        serves(node, options, headers),
        mapped_up_to(node, headers, number),
        0 <= number < headers.len(),
        options.sync_from@ <= number,
        tips_of_round(node) == Ok::<Seq<N::Hash>, Seq<char>>(tips),
        are_rising_tips(headers, number, tips),
    ensures
        round(node, options).outcome == Some(Ok::<bool, Seq<char>>(true)),
        round(node, options).effects.len() >= 2,
        is_full_entry_of(round(node, options).effects[0], headers[number].hash),
        round(node, options).effects[1] == SyncQueryView::<N>::WriteCurrentSyncingTips(after),
        forall|i: int|
            2 <= i < round(node, options).effects.len() ==> !is_write(
                #[trigger] round(node, options).effects[i],
            ),
        are_rising_tips(headers, number + 1, after),
{
    lemma_picks_lowest(node, options, headers, number, tips);
    let header = headers[number];
    let rest = down_to(headers, number + 1);
    if number == 0 {
        let entry = due_genesis_entry(node, header.hash)->Ok_0;
        assert(is_write(entry));
        assert(is_write(SyncQueryView::<N>::WriteCurrentSyncingTips(rest)));
        lemma_settles(node, entry, rest, header.hash);
        rest
    } else {
        let parent = headers[number - 1];
        assert(header.parent_hash == parent.hash);
        assert(is_mapped(node, parent.hash));
        assert(has_block(node, header));
        let entry = due_entry(node, header)->Ok_0;
        assert(is_full_entry_of(entry, header.hash));
        let after = rest.push(parent.hash);
        assert(is_write(SyncQueryView::<N>::WriteCurrentSyncingTips(after)));
        lemma_settles(node, entry, after, header.hash);
        after
    }
}

/// How many rounds it takes to go down from the last block to the lowest that is not mapped, where
/// `count` blocks are mapped.
pub open spec fn way_down<N: Node>(headers: Seq<ChainHeader<N>>, count: int) -> int {
    headers.len() - 1 - count
}

/// Where the synchronisation stands after so many rounds, `count` blocks having been mapped before
/// them: on its way down, or on its way up again.
spec fn stands<N: Node>(
    node: spec_fn(SyncQueryView<N>) -> SyncReply<N>,
    headers: Seq<ChainHeader<N>>,
    count: int,
    rounds: int,
) -> bool {
    let last = headers.len() - 1;
    let risen = rounds - way_down(headers, count);
    if risen <= 0 {
        &&& mapped_up_to(node, headers, count)
        &&& tips_of_round(node) == Ok::<Seq<N::Hash>, Seq<char>>(down_to(headers, last - rounds))
    } else {
        &&& mapped_up_to(node, headers, count + risen)
        &&& count + risen <= last ==> (tips_of_round(node) matches Ok(tips) && are_rising_tips(
            headers,
            count + risen,
            tips,
        ))
    }
}

proof fn lemma_round_down<N: Node>(
    node: spec_fn(SyncQueryView<N>) -> SyncReply<N>,
    later: spec_fn(SyncQueryView<N>) -> SyncReply<N>,
    options: SyncOptions,
    headers: Seq<ChainHeader<N>>,
    count: int,
    rounds: int,
)
    requires
        is_chain(headers),
        serves(node, options, headers),
        0 <= count < headers.len(),
        options.sync_from@ <= count,
        0 <= rounds < way_down(headers, count),
        stands(node, headers, count, rounds),
        keeps(node, round(node, options).effects, later),
    ensures
        round(node, options).outcome == Some(Ok::<bool, Seq<char>>(true)),
        stands(later, headers, count, rounds + 1),
{
    let number = headers.len() - 1 - rounds;
    lemma_going_down(node, options, headers, count, number);
    let effects = round(node, options).effects;
    let tips = down_to(headers, number - 1);
    assert(effects[0] == SyncQueryView::<N>::WriteCurrentSyncingTips(tips));
    lemma_down_to(headers, number - 1);
    assert forall|i: int| 0 <= i < headers.len() implies if i < count {
        is_mapped(later, (#[trigger] headers[i]).hash)
    } else {
        is_unmapped(later, headers[i].hash)
    } by {
        let hash = headers[i].hash;
        assert(forall|j: int|
            0 <= j < effects.len() ==> !is_entry_of(#[trigger] effects[j], hash));
        assert(later(SyncQueryView::IsSynced(hash)) == node(SyncQueryView::IsSynced(hash)));
    }
}

proof fn lemma_round_up<N: Node>(
    node: spec_fn(SyncQueryView<N>) -> SyncReply<N>,
    later: spec_fn(SyncQueryView<N>) -> SyncReply<N>,
    options: SyncOptions,
    headers: Seq<ChainHeader<N>>,
    count: int,
    rounds: int,
)
    requires
        is_chain(headers),
        serves(node, options, headers),
        0 <= count < headers.len(),
        options.sync_from@ <= count,
        way_down(headers, count) <= rounds <= 2 * way_down(headers, count),
        stands(node, headers, count, rounds),
        keeps(node, round(node, options).effects, later),
    ensures
        round(node, options).outcome == Some(Ok::<bool, Seq<char>>(true)),
        stands(later, headers, count, rounds + 1),
{
    let number = count + rounds - way_down(headers, count);
    let tips = tips_of_round(node)->Ok_0;
    let after = lemma_going_up(node, options, headers, number, tips);
    let effects = round(node, options).effects;
    assert(effects[1] is WriteCurrentSyncingTips);
    assert(is_full_entry_of(effects[0], headers[number].hash));
    assert forall|i: int| 0 <= i < headers.len() implies if i < number + 1 {
        is_mapped(later, (#[trigger] headers[i]).hash)
    } else {
        is_unmapped(later, headers[i].hash)
    } by {
        let hash = headers[i].hash;
        if i != number {
            assert(hash != headers[number].hash);
            assert forall|j: int| 0 <= j < effects.len() implies !is_entry_of(
                #[trigger] effects[j],
                hash,
            ) by {
                if j >= 2 {
                    assert(!is_write(effects[j]));
                }
            }
            assert(later(SyncQueryView::IsSynced(hash)) == node(SyncQueryView::IsSynced(hash)));
        }
    }
    if number + 1 < headers.len() {
        lemma_down_to(headers, number + 1);
        assert forall|j: int| 1 < j < effects.len() implies !((
        #[trigger] effects[j]) is WriteCurrentSyncingTips) by {
            assert(!is_write(effects[j]));
        }
        assert(after.len() > 0);
    }
}

proof fn lemma_stands<N: Node>(
    nodes: spec_fn(int) -> spec_fn(SyncQueryView<N>) -> SyncReply<N>,
    options: SyncOptions,
    headers: Seq<ChainHeader<N>>,
    count: int,
    rounds: int,
)
    requires
        is_chain(headers),
        0 <= count < headers.len(),
        options.sync_from@ <= count,
        mapped_up_to(nodes(0), headers, count),
        nodes(0)(SyncQueryView::CurrentSyncingTips)->Tips_0 matches Ok(tips) && tips@.len() == 0,
        forall|i: int|
            0 <= i <= 2 * way_down(headers, count) ==> serves(#[trigger] nodes(i), options, headers),
        forall|i: int|
            0 <= i <= 2 * way_down(headers, count) ==> keeps(
                #[trigger] nodes(i),
                round(nodes(i), options).effects,
                nodes(i + 1),
            ),
        0 <= rounds <= 2 * way_down(headers, count) + 1,
    ensures
        stands(nodes(rounds), headers, count, rounds),
        rounds > 0 ==> round(nodes(rounds - 1), options).outcome == Some(
            Ok::<bool, Seq<char>>(true),
        ),
    decreases rounds,
{
    if rounds == 0 {
        assert(serves(nodes(0), options, headers));
        assert(seq![headers.last().hash] =~= down_to(headers, headers.len() - 1));
    } else {
        let before = rounds - 1;
        lemma_stands(nodes, options, headers, count, before);
        assert(serves(nodes(before), options, headers));
        assert(keeps(nodes(before), round(nodes(before), options).effects, nodes(rounds)));
        if before < way_down(headers, count) {
            lemma_round_down(nodes(before), nodes(rounds), options, headers, count, before);
        } else {
            lemma_round_up(nodes(before), nodes(rounds), options, headers, count, before);
        }
    }
}

/// A whole chain is mapped in the end. Where the first `count` blocks of a chain are mapped, no
/// tip is stored, the node keeps what is written and has the Ethereum block to each block, each
/// round moves the synchronisation on, down from the last block to the lowest that is not mapped
/// and up again, until all blocks are mapped. This takes one round less than two for each block
/// that was not mapped. The blocks to be mapped must not be below the one from which the
/// synchronisation is to start.
pub proof fn law_whole_chain_is_mapped<N: Node>(
    nodes: spec_fn(int) -> spec_fn(SyncQueryView<N>) -> SyncReply<N>,
    options: SyncOptions,
    headers: Seq<ChainHeader<N>>,
    count: int,
)
    requires
        is_chain(headers),
        0 <= count < headers.len(),
        options.sync_from@ <= count,
        mapped_up_to(nodes(0), headers, count),
        nodes(0)(SyncQueryView::CurrentSyncingTips)->Tips_0 matches Ok(tips) && tips@.len() == 0,
        forall|i: int|
            0 <= i <= 2 * way_down(headers, count) ==> serves(#[trigger] nodes(i), options, headers),
        forall|i: int|
            0 <= i <= 2 * way_down(headers, count) ==> keeps(
                #[trigger] nodes(i),
                round(nodes(i), options).effects,
                nodes(i + 1),
            ),
    ensures
        mapped_up_to(
            nodes(2 * (headers.len() - count) - 1),
            headers,
            headers.len() as int,
        ),
        forall|i: int|
            0 <= i < 2 * (headers.len() - count) - 1 ==> round(
                #[trigger] nodes(i),
                options,
            ).outcome == Some(Ok::<bool, Seq<char>>(true)),
{
    let all = 2 * way_down(headers, count) + 1;
    lemma_stands(nodes, options, headers, count, all);
    assert forall|i: int| 0 <= i < all implies round(#[trigger] nodes(i), options).outcome == Some(
        Ok::<bool, Seq<char>>(true),
    ) by {
        lemma_stands(nodes, options, headers, count, i + 1);
    }
}

} // verus!

//! Which receipts clients are shown, from what the node holds.

use vstd::prelude::*;

use crate::eth::queries::{
    answers_all, BlockInfo, BlockNumberOrHash, EthQueryView, EthReply, RpcErrorView,
    TransactionStatus,
};
use crate::eth::receipts::{
    law_block_transaction_receipts, receipt_at, receipts_bound, receipts_from, receipts_run,
    receipts_start,
};
use crate::node::Node;

verus! {

/// A client that asks for the receipts at a place is answered with nothing exactly if what is known
/// of the block there has no statuses, and with the node's error if that is what is known. Nothing
/// is changed in any case.
pub proof fn law_receipts_are_missing_with_the_statuses<N: Node>(
    node: spec_fn(EthQueryView<N>) -> EthReply<N>,
    place: BlockNumberOrHash<N>,
    fuel: nat,
)
    requires
        answers_all(node),
        fuel >= receipts_bound(node, place),
    ensures
        ({
            let whole = receipts_run(node, receipts_start(place), fuel);
            let known = node(EthQueryView::BlockInfoByNumber(place))->Info_0;
            &&& whole.effects.len() == 0
            &&& (whole.outcome matches Some(Ok(None))) <==> (known matches Ok(info)
                && info.statuses is None)
            &&& known matches Err(error) ==> whole.outcome == Some(
                Err::<Option<Seq<N::Receipt>>, RpcErrorView<N>>(RpcErrorView::Node(error)),
            )
        }),
{
    law_block_transaction_receipts(node, place, fuel);
}

proof fn lemma_shown_receipts<N: Node>(
    node: spec_fn(EthQueryView<N>) -> EthReply<N>,
    info: BlockInfo<N>,
    statuses: Seq<TransactionStatus<N>>,
    there: Seq<int>,
    from: int,
    seen: int,
)
    requires
        info.statuses is Some,
        statuses == info.statuses->0@,
        0 <= from <= statuses.len(),
        0 <= seen <= there.len(),
        forall|i: int|
            from <= i < statuses.len() ==> (node(
                EthQueryView::TransactionReceipt(
                    info,
                    (#[trigger] statuses[i]).transaction_hash,
                    statuses[i].transaction_index as usize,
                ),
            )->Receipt_0 matches Ok(receipt) && (receipt is Some ==> exists|j: int|
                seen <= j < there.len() && #[trigger] there[j] == i)),
        forall|i: int, j: int|
            0 <= i < j < there.len() ==> #[trigger] there[i] < #[trigger] there[j],
        forall|i: int|
            seen <= i < there.len() ==> from <= #[trigger] there[i] < statuses.len() && (node(
                EthQueryView::TransactionReceipt(
                    info,
                    statuses[there[i]].transaction_hash,
                    statuses[there[i]].transaction_index as usize,
                ),
            )->Receipt_0 matches Ok(Some(_))),
    ensures
        ({
            let found = receipts_from(node, info, from);
            &&& found matches Ok(receipts)
            &&& receipts.len() == there.len() - seen
            &&& forall|i: int|
                0 <= i < receipts.len() ==> node(
                    EthQueryView::TransactionReceipt(
                        info,
                        statuses[there[seen + i]].transaction_hash,
                        statuses[there[seen + i]].transaction_index as usize,
                    ),
                )->Receipt_0 == Ok::<Option<N::Receipt>, N::Error>(Some(#[trigger] receipts[i]))
        }),
    decreases statuses.len() - from,
{
    if from < statuses.len() {
        let own = receipt_at(node, info, from);
        assert(statuses[from] == statuses[from]);
        if own matches Ok(Some(_)) {
            let j = choose|j: int| seen <= j < there.len() && #[trigger] there[j] == from;
            if j > seen {
                assert(there[seen] < there[j]);
            }
            assert(there[seen] == from);
            assert forall|i: int| seen + 1 <= i < there.len() implies
            from + 1 <= #[trigger] there[i] by {
                assert(there[seen] < there[i]);
            }
            lemma_shown_receipts(node, info, statuses, there, from + 1, seen + 1);
        } else {
            assert forall|i: int| seen <= i < there.len() implies
            from + 1 <= #[trigger] there[i] by {
                assert(there[i] != from);
            }
            lemma_shown_receipts(node, info, statuses, there, from + 1, seen);
        }
    } else {
        if there.len() > seen {
            assert(there[seen] < statuses.len());
        }
    }
}

/// Where the statuses of a block are known, though there be none, and no read of a receipt fails, a
/// client that asks for the receipts is answered with those that the node has, for the transactions
/// whose statuses stand at the places in `there`, in that order, and no others. Each is read by the
/// hash and the index that its status gives, and what is known of the block.
pub proof fn law_receipts_that_are_there_are_shown<N: Node>(
    node: spec_fn(EthQueryView<N>) -> EthReply<N>,
    place: BlockNumberOrHash<N>,
    info: BlockInfo<N>,
    statuses: Seq<TransactionStatus<N>>,
    there: Seq<int>,
    fuel: nat,
)
    requires
        answers_all(node),
        fuel >= receipts_bound(node, place),
        node(EthQueryView::BlockInfoByNumber(place))->Info_0 == Ok::<BlockInfo<N>, N::Error>(info),
        info.statuses is Some,
        statuses == info.statuses->0@,
        forall|i: int|
            0 <= i < statuses.len() ==> (node(
                EthQueryView::TransactionReceipt(
                    info,
                    (#[trigger] statuses[i]).transaction_hash,
                    statuses[i].transaction_index as usize,
                ),
            )->Receipt_0 matches Ok(receipt) && (receipt is Some ==> exists|j: int|
                0 <= j < there.len() && #[trigger] there[j] == i)),
        forall|i: int, j: int|
            0 <= i < j < there.len() ==> #[trigger] there[i] < #[trigger] there[j],
        forall|i: int|
            0 <= i < there.len() ==> 0 <= #[trigger] there[i] < statuses.len() && (node(
                EthQueryView::TransactionReceipt(
                    info,
                    statuses[there[i]].transaction_hash,
                    statuses[there[i]].transaction_index as usize,
                ),
            )->Receipt_0 matches Ok(Some(_))),
    ensures
        ({
            let whole = receipts_run(node, receipts_start(place), fuel);
            &&& whole.outcome matches Some(Ok(Some(receipts)))
            &&& receipts.len() == there.len()
            &&& forall|i: int|
                0 <= i < receipts.len() ==> node(
                    EthQueryView::TransactionReceipt(
                        info,
                        statuses[there[i]].transaction_hash,
                        statuses[there[i]].transaction_index as usize,
                    ),
                )->Receipt_0 == Ok::<Option<N::Receipt>, N::Error>(Some(#[trigger] receipts[i]))
        }),
{
    law_block_transaction_receipts(node, place, fuel);
    lemma_shown_receipts(node, info, statuses, there, 0, 0);
}

/// Where every transaction's receipt is there, a client gets as many receipts as there are statuses,
/// none included, each at the place of its status.
pub proof fn law_all_receipts_are_shown<N: Node>(
    node: spec_fn(EthQueryView<N>) -> EthReply<N>,
    place: BlockNumberOrHash<N>,
    info: BlockInfo<N>,
    statuses: Seq<TransactionStatus<N>>,
    fuel: nat,
)
    requires
        answers_all(node),
        fuel >= receipts_bound(node, place),
        node(EthQueryView::BlockInfoByNumber(place))->Info_0 == Ok::<BlockInfo<N>, N::Error>(info),
        info.statuses is Some,
        statuses == info.statuses->0@,
        forall|i: int|
            0 <= i < statuses.len() ==> (node(
                EthQueryView::TransactionReceipt(
                    info,
                    (#[trigger] statuses[i]).transaction_hash,
                    statuses[i].transaction_index as usize,
                ),
            )->Receipt_0 matches Ok(Some(_))),
    ensures
        ({
            let whole = receipts_run(node, receipts_start(place), fuel);
            &&& whole.outcome matches Some(Ok(Some(receipts)))
            &&& receipts.len() == statuses.len()
            &&& forall|i: int|
                0 <= i < receipts.len() ==> node(
                    EthQueryView::TransactionReceipt(
                        info,
                        statuses[i].transaction_hash,
                        statuses[i].transaction_index as usize,
                    ),
                )->Receipt_0 == Ok::<Option<N::Receipt>, N::Error>(Some(#[trigger] receipts[i]))
        }),
{
    let there = Seq::new(statuses.len(), |i: int| i);
    assert forall|i: int| 0 <= i < statuses.len() implies (node(
        EthQueryView::TransactionReceipt(
            info,
            (#[trigger] statuses[i]).transaction_hash,
            statuses[i].transaction_index as usize,
        ),
    )->Receipt_0 matches Ok(receipt) && (receipt is Some ==> exists|j: int|
        0 <= j < there.len() && #[trigger] there[j] == i)) by {
        assert(there[i] == i);
    }
    assert forall|i: int| 0 <= i < there.len() implies 0 <= #[trigger] there[i] < statuses.len()
        && (node(
        EthQueryView::TransactionReceipt(
            info,
            statuses[there[i]].transaction_hash,
            statuses[there[i]].transaction_index as usize,
        ),
    )->Receipt_0 matches Ok(Some(_))) by {
        assert(statuses[i] == statuses[there[i]]);
    }
    law_receipts_that_are_there_are_shown(node, place, info, statuses, there, fuel);
    let receipts = receipts_run(node, receipts_start(place), fuel).outcome->0->Ok_0->0;
    assert forall|i: int| 0 <= i < receipts.len() implies node(
        EthQueryView::TransactionReceipt(
            info,
            statuses[i].transaction_hash,
            statuses[i].transaction_index as usize,
        ),
    )->Receipt_0 == Ok::<Option<N::Receipt>, N::Error>(Some(#[trigger] receipts[i])) by {
        assert(there[i] == i);
    }
}

proof fn lemma_first_failure<N: Node>(
    node: spec_fn(EthQueryView<N>) -> EthReply<N>,
    info: BlockInfo<N>,
    statuses: Seq<TransactionStatus<N>>,
    failing: int,
    from: int,
    error: N::Error,
)
    requires
        info.statuses is Some,
        statuses == info.statuses->0@,
        0 <= from <= failing < statuses.len(),
        forall|i: int|
            from <= i < failing ==> node(
                EthQueryView::TransactionReceipt(
                    info,
                    (#[trigger] statuses[i]).transaction_hash,
                    statuses[i].transaction_index as usize,
                ),
            )->Receipt_0 is Ok,
        node(
            EthQueryView::TransactionReceipt(
                info,
                statuses[failing].transaction_hash,
                statuses[failing].transaction_index as usize,
            ),
        )->Receipt_0 == Err::<Option<N::Receipt>, N::Error>(error),
    ensures
        receipts_from(node, info, from) == Err::<Seq<N::Receipt>, N::Error>(error),
    decreases failing - from,
{
    if from < failing {
        assert(statuses[from] == statuses[from]);
        lemma_first_failure(node, info, statuses, failing, from + 1, error);
    }
}

/// The first read of a receipt that fails is what the client is answered.
pub proof fn law_first_failing_receipt_is_answered<N: Node>(
    node: spec_fn(EthQueryView<N>) -> EthReply<N>,
    place: BlockNumberOrHash<N>,
    info: BlockInfo<N>,
    statuses: Seq<TransactionStatus<N>>,
    failing: int,
    error: N::Error,
    fuel: nat,
)
    requires
        answers_all(node),
        fuel >= receipts_bound(node, place),
        node(EthQueryView::BlockInfoByNumber(place))->Info_0 == Ok::<BlockInfo<N>, N::Error>(info),
        info.statuses is Some,
        statuses == info.statuses->0@,
        0 <= failing < statuses.len(),
        forall|i: int|
            0 <= i < failing ==> node(
                EthQueryView::TransactionReceipt(
                    info,
                    (#[trigger] statuses[i]).transaction_hash,
                    statuses[i].transaction_index as usize,
                ),
            )->Receipt_0 is Ok,
        node(
            EthQueryView::TransactionReceipt(
                info,
                statuses[failing].transaction_hash,
                statuses[failing].transaction_index as usize,
            ),
        )->Receipt_0 == Err::<Option<N::Receipt>, N::Error>(error),
    ensures
        receipts_run(node, receipts_start(place), fuel).outcome == Some(
            Err::<Option<Seq<N::Receipt>>, RpcErrorView<N>>(RpcErrorView::Node(error)),
        ),
{
    law_block_transaction_receipts(node, place, fuel);
    lemma_first_failure(node, info, statuses, failing, 0, error);
}

} // verus!

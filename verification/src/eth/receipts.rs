//! The receipts of all transactions of a block.

use std::sync::Arc;

use vstd::prelude::*;

use crate::eth::queries::{
    answers_all, is_effect, BlockInfo, BlockNumberOrHash, Eth, EthQuery, EthQueryView, EthReply,
    RpcError, RpcErrorView,
};
use crate::machine::{run, Run, Step};
use crate::node::Node;

verus! {

/// The answer to a client that asks for the receipts at a place, where it waits for a reply.
pub enum BlockReceipts<N: Node> {
    /// For what is known of the block.
    Info,
    /// For the receipt of the transaction whose status stands at `index`, those before it being
    /// there already.
    Receipt { info: Arc<BlockInfo<N>>, index: usize, receipts: Vec<N::Receipt> },
}

/// What a [`BlockReceipts`] holds.
pub enum BlockReceiptsView<N: Node> {
    Info,
    Receipt { info: BlockInfo<N>, index: int, receipts: Seq<N::Receipt> },
}

impl<N: Node> View for BlockReceipts<N> {
    type V = BlockReceiptsView<N>;

    open spec fn view(&self) -> BlockReceiptsView<N> {
        match *self {
            BlockReceipts::Info => BlockReceiptsView::Info,
            BlockReceipts::Receipt { info, index, receipts } => BlockReceiptsView::Receipt {
                info: *info,
                index: index as int,
                receipts: receipts@,
            },
        }
    }
}

/// The answer: receipts, if the block is known.
pub type ReceiptsAnswer<N> = Result<Option<Vec<<N as Node>::Receipt>>, RpcError<N>>;

/// What a [`ReceiptsAnswer`] holds.
pub type ReceiptsAnswerView<N> = Result<Option<Seq<<N as Node>::Receipt>>, RpcErrorView<N>>;

/// Where the answer stands.
pub type ReceiptsStep<N> = Step<BlockReceipts<N>, EthQuery<N>, ReceiptsAnswer<N>>;

/// What a [`ReceiptsStep`] holds.
pub type ReceiptsStepView<N> = Step<BlockReceiptsView<N>, EthQueryView<N>, ReceiptsAnswerView<N>>;

/// What a [`ReceiptsStep`] holds.
pub open spec fn receipts_step_view<N: Node>(step: ReceiptsStep<N>) -> ReceiptsStepView<N> {
    match step {
        Step::Ask(state, query) => Step::Ask(state@, query@),
        Step::Done(Ok(Some(receipts))) => Step::Done(Ok(Some(receipts@))),
        Step::Done(Ok(None)) => Step::Done(Ok(None)),
        Step::Done(Err(error)) => Step::Done(Err(error@)),
    }
}

/// The query for the receipt of the transaction whose status stands at `index`.
pub open spec fn receipt_query<N: Node>(info: BlockInfo<N>, index: int) -> EthQueryView<N> {
    let status = info.statuses->0@[index];
    EthQueryView::TransactionReceipt(
        info,
        status.transaction_hash,
        status.transaction_index as usize,
    )
}

/// The step that asks for the receipt at `index`, or ends the answer if there are no more.
pub open spec fn ask_receipt<N: Node>(
    info: BlockInfo<N>,
    index: int,
    receipts: Seq<N::Receipt>,
) -> ReceiptsStepView<N> {
    if index < info.statuses->0@.len() {
        Step::Ask(
            BlockReceiptsView::Receipt { info, index, receipts },
            receipt_query(info, index),
        )
    } else {
        Step::Done(Ok(Some(receipts)))
    }
}

/// The first step of the answer.
pub open spec fn receipts_start<N: Node>(place: BlockNumberOrHash<N>) -> ReceiptsStepView<N> {
    Step::Ask(BlockReceiptsView::Info, EthQueryView::BlockInfoByNumber(place))
}

/// The receipt, if there is one.
pub open spec fn one_receipt<A>(receipt: Option<A>) -> Seq<A> {
    match receipt {
        Some(receipt) => seq![receipt],
        None => Seq::empty(),
    }
}

impl<N: Node> BlockReceiptsView<N> {
    /// The answer waits for a reply of this kind.
    pub open spec fn awaits(self, reply: EthReply<N>) -> bool {
        match self {
            BlockReceiptsView::Info => reply is Info,
            BlockReceiptsView::Receipt { .. } => reply is Receipt,
        }
    }

    /// A status stands where the answer is.
    pub open spec fn is_valid(self) -> bool {
        match self {
            BlockReceiptsView::Info => true,
            BlockReceiptsView::Receipt { info, index, .. } => {
                info.statuses is Some && 0 <= index < info.statuses->0@.len()
            },
        }
    }

    /// Where the answer stands after the reply.
    pub open spec fn next(self, reply: EthReply<N>) -> ReceiptsStepView<N> {
        match (self, reply) {
            (BlockReceiptsView::Info, EthReply::Info(result)) => match result {
                Ok(info) => if info.statuses is Some {
                    ask_receipt(info, 0, Seq::empty())
                } else {
                    Step::Done(Ok(None))
                },
                Err(error) => Step::Done(Err(RpcErrorView::Node(error))),
            },
            (
                BlockReceiptsView::Receipt { info, index, receipts },
                EthReply::Receipt(result),
            ) => match result {
                Ok(receipt) => ask_receipt(info, index + 1, receipts + one_receipt(receipt)),
                Err(error) => Step::Done(Err(RpcErrorView::Node(error))),
            },
            _ => arbitrary(),
        }
    }
}

impl<N: Node> BlockReceipts<N> {
    fn ask(info: Arc<BlockInfo<N>>, index: usize, receipts: Vec<N::Receipt>) -> (step: ReceiptsStep<
        N,
    >)
        requires
            info.statuses is Some,
        ensures
            receipts_step_view(step) == ask_receipt(*info, index as int, receipts@),
            step matches Step::Ask(state, _) ==> state@.is_valid(),
    {
        match &info.statuses {
            Some(statuses) => {
                if index < statuses.len() {
                    let hash = statuses[index].transaction_hash;
                    let position: usize = statuses[index].transaction_index as usize;
                    let query = EthQuery::TransactionReceipt(Arc::clone(&info), hash, position);
                    Step::Ask(BlockReceipts::Receipt { info, index, receipts }, query)
                } else {
                    Step::Done(Ok(Some(receipts)))
                }
            },
            None => vstd::pervasive::unreached(),
        }
    }

    /// Goes on with the node's reply.
    pub fn resume(self, reply: EthReply<N>) -> (step: ReceiptsStep<N>)
        requires
            self@.is_valid(),
            self@.awaits(reply),
        ensures
            receipts_step_view(step) == self@.next(reply),
            step matches Step::Ask(state, _) ==> state@.is_valid(),
    {
        match (self, reply) {
            (BlockReceipts::Info, EthReply::Info(result)) => match result {
                Ok(info) => {
                    if info.statuses.is_some() {
                        Self::ask(Arc::new(info), 0, Vec::new())
                    } else {
                        Step::Done(Ok(None))
                    }
                },
                Err(error) => Step::Done(Err(RpcError::Node(error))),
            },
            (BlockReceipts::Receipt { info, index, receipts }, EthReply::Receipt(result)) => {
                assert(info.statuses->0.len() == info.statuses->0@.len());
                let ghost before = receipts@;
                let mut receipts = receipts;
                match result {
                    Ok(receipt) => {
                        assert(before + one_receipt(None) =~= before);
                        if let Some(receipt) = receipt {
                            receipts.push(receipt);
                            assert(receipts@ =~= before + one_receipt(Some(receipt)));
                        }
                        Self::ask(info, index + 1, receipts)
                    },
                    Err(error) => Step::Done(Err(RpcError::Node(error))),
                }
            },
            _ => vstd::pervasive::unreached(),
        }
    }
}

impl Eth {
    /// Starts to answer a client that asks for the receipts of all transactions of the block at
    /// the place.
    pub fn block_transaction_receipts<N: Node>(
        &self,
        number_or_hash: BlockNumberOrHash<N>,
    ) -> (step: ReceiptsStep<N>)
        ensures
            receipts_step_view(step) == receipts_start(number_or_hash),
            step matches Step::Ask(state, _) && state@.is_valid(),
    {
        Step::Ask(BlockReceipts::Info, EthQuery::BlockInfoByNumber(number_or_hash))
    }
}

/// The whole answer.
pub open spec fn receipts_run<N: Node>(
    node: spec_fn(EthQueryView<N>) -> EthReply<N>,
    step: ReceiptsStepView<N>,
    fuel: nat,
) -> Run<EthQueryView<N>, ReceiptsAnswerView<N>> {
    run(
        |state: BlockReceiptsView<N>, reply: EthReply<N>| state.next(reply),
        |query: EthQueryView<N>| is_effect(query),
        node,
        step,
        fuel,
    )
}

/// What the node answers when asked for the receipt of the transaction whose status stands at
/// `index`.
pub open spec fn receipt_at<N: Node>(
    node: spec_fn(EthQueryView<N>) -> EthReply<N>,
    info: BlockInfo<N>,
    index: int,
) -> Result<Option<N::Receipt>, N::Error> {
    node(receipt_query(info, index))->Receipt_0
}

/// The receipts from `index` on that the node has, in the order of the statuses, or the first
/// error.
pub open spec fn receipts_from<N: Node>(
    node: spec_fn(EthQueryView<N>) -> EthReply<N>,
    info: BlockInfo<N>,
    index: int,
) -> Result<Seq<N::Receipt>, N::Error>
    decreases info.statuses->0@.len() - index,
{
    if index >= info.statuses->0@.len() {
        Ok(Seq::empty())
    } else {
        match receipt_at(node, info, index) {
            Err(error) => Err(error),
            Ok(receipt) => match receipts_from(node, info, index + 1) {
                Err(error) => Err(error),
                Ok(rest) => Ok(one_receipt(receipt) + rest),
            },
        }
    }
}

/// The answer to a client that asks for the receipts at the place.
pub open spec fn receipts_at<N: Node>(
    node: spec_fn(EthQueryView<N>) -> EthReply<N>,
    place: BlockNumberOrHash<N>,
) -> ReceiptsAnswerView<N> {
    match node(EthQueryView::BlockInfoByNumber(place))->Info_0 {
        Err(error) => Err(RpcErrorView::Node(error)),
        Ok(info) => if info.statuses is Some {
            match receipts_from(node, info, 0) {
                Err(error) => Err(RpcErrorView::Node(error)),
                Ok(receipts) => Ok(Some(receipts)),
            }
        } else {
            Ok(None)
        },
    }
}

/// A number of queries that the answer does not exceed.
pub open spec fn receipts_bound<N: Node>(
    node: spec_fn(EthQueryView<N>) -> EthReply<N>,
    place: BlockNumberOrHash<N>,
) -> nat {
    match node(EthQueryView::BlockInfoByNumber(place))->Info_0 {
        Ok(info) => if info.statuses is Some {
            1 + info.statuses->0@.len()
        } else {
            1
        },
        Err(_) => 1,
    }
}

proof fn lemma_receipts_from<N: Node>(
    node: spec_fn(EthQueryView<N>) -> EthReply<N>,
    info: BlockInfo<N>,
    index: int,
    receipts: Seq<N::Receipt>,
    fuel: nat,
)
    requires
        answers_all(node),
        0 <= index <= info.statuses->0@.len(),
        fuel >= info.statuses->0@.len() - index,
    ensures
        receipts_run(node, ask_receipt(info, index, receipts), fuel).effects == Seq::<
            EthQueryView<N>,
        >::empty(),
        receipts_run(node, ask_receipt(info, index, receipts), fuel).outcome == (match receipts_from(
            node,
            info,
            index,
        ) {
            Err(error) => Some(Err(RpcErrorView::<N>::Node(error))),
            Ok(rest) => Some(Ok(Some(receipts + rest))),
        }),
    decreases info.statuses->0@.len() - index,
{
    if index < info.statuses->0@.len() {
        reveal_with_fuel(run, 2);
        if let Ok(receipt) = receipt_at(node, info, index) {
            let more = receipts + one_receipt(receipt);
            lemma_receipts_from(node, info, index + 1, more, (fuel - 1) as nat);
            if let Ok(rest) = receipts_from(node, info, index + 1) {
                assert(receipts + (one_receipt(receipt) + rest) =~= more + rest);
            }
        }
    } else {
        assert(receipts + Seq::<N::Receipt>::empty() =~= receipts);
    }
}

/// The answer to a client that asks for the receipts at a place is given, whatever the node
/// holds, changes nothing, and is the one that `receipts_at` says.
pub proof fn law_block_transaction_receipts<N: Node>(
    node: spec_fn(EthQueryView<N>) -> EthReply<N>,
    place: BlockNumberOrHash<N>,
    fuel: nat,
)
    requires
        answers_all(node),
        fuel >= receipts_bound(node, place),
    ensures
        receipts_run(node, receipts_start(place), fuel) == (Run {
            effects: Seq::<EthQueryView<N>>::empty(),
            outcome: Some(receipts_at(node, place)),
        }),
{
    reveal_with_fuel(run, 2);
    if let Ok(info) = node(EthQueryView::BlockInfoByNumber(place))->Info_0 {
        if info.statuses is Some {
            lemma_receipts_from(node, info, 0, Seq::empty(), (fuel - 1) as nat);
            if let Ok(receipts) = receipts_from(node, info, 0) {
                assert(Seq::<N::Receipt>::empty() + receipts =~= receipts);
            }
        }
    }
}

/// If the node has the receipt of every transaction from `index` on, then all are shown, each at
/// the place of its status.
pub proof fn law_every_receipt_is_shown<N: Node>(
    node: spec_fn(EthQueryView<N>) -> EthReply<N>,
    info: BlockInfo<N>,
    index: int,
)
    requires
        0 <= index <= info.statuses->0@.len(),
        forall|i: int|
            index <= i < info.statuses->0@.len() ==> (#[trigger] receipt_at(node, info, i)
                matches Ok(Some(_))),
    ensures
        receipts_from(node, info, index) is Ok,
        receipts_from(node, info, index)->Ok_0.len() == info.statuses->0@.len() - index,
        forall|i: int|
            index <= i < info.statuses->0@.len() ==> #[trigger] receipt_at(node, info, i) == Ok::<
                Option<N::Receipt>,
                N::Error,
            >(Some(receipts_from(node, info, index)->Ok_0[i - index])),
    decreases info.statuses->0@.len() - index,
{
    if index < info.statuses->0@.len() {
        law_every_receipt_is_shown(node, info, index + 1);
        assert(receipt_at(node, info, index) matches Ok(Some(_)));
    }
}

} // verus!

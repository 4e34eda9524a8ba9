//! Answers to clients that ask by a place in the chain.

use vstd::prelude::*;
use vstd::string::StringExecFns;

use crate::block::Block;
use crate::eth::by_hash::{
    answer_from, count_of, count_step_view, count_transactions, AnswerRun, CountAnswer,
    CountAnswerView,
};
use crate::eth::queries::{
    answers_all, is_effect, node_result, only_caches_change, step_view, BlockNumberOrHash, Eth,
    EthQuery, EthQueryView, EthReply, RpcError, RpcErrorView, TransactionStatus,
};
use crate::eth::rich::{
    all_present, answer_view, build_bound, build_start, build_step_view, built,
    law_build_rich_block, mark_present, BlockAnswer, BlockAnswerView, BuildRichBlock,
    BuildRichBlockView, BuildStep, BuildStepView, Material, RichBlock, RichBlockParts,
    RichBlockPartsView, RichBlockView,
};
use crate::machine::{at, embed, law_run_after_embedded, run, run_after, Run, Step};
use crate::node::Node;
use crate::primitives::{H256, U256};

verus! {

/// A block that is yet to come, with its statuses.
pub struct PendingMaterial<N: Node> {
    pub block: Block<N::Transaction>,
    pub statuses: Vec<TransactionStatus<N>>,
    pub full: bool,
    pub base_fee: Option<U256>,
}

/// What stands at a place in the chain.
pub enum Found<N: Node> {
    /// A block of the chain.
    OnChain(Material<N>),
    /// The block that is yet to come.
    Pending(PendingMaterial<N>),
}

/// The search for the block at a place, where it waits for a reply.
pub enum FindBlock<N: Node> {
    /// For the node's way to point at the block.
    Id { pending: bool, full: bool },
    /// For the chain block to which it points.
    ChainHash { full: bool },
    /// For the Ethereum block.
    Block { full: bool, chain_hash: H256 },
    /// For its statuses.
    Statuses { full: bool, chain_hash: H256, block: Option<Block<N::Transaction>> },
    /// For the gas price.
    GasPrice {
        full: bool,
        chain_hash: H256,
        block: Option<Block<N::Transaction>>,
        statuses: Option<Vec<TransactionStatus<N>>>,
    },
    /// For the best block, which the pending one would follow.
    BestHash { full: bool },
    /// For the transactions that are ready.
    Ready { full: bool, best_hash: H256 },
    /// For the transactions that wait for others.
    Future { full: bool, best_hash: H256, ready: Vec<N::Extrinsic> },
    /// For the pending block.
    Pending { full: bool, best_hash: H256 },
    /// For the gas price that goes with it.
    PendingGasPrice {
        full: bool,
        block: Option<Block<N::Transaction>>,
        statuses: Option<Vec<TransactionStatus<N>>>,
    },
}

/// What the search yields: a block, if there is one.
pub type FindResult<N> = Result<Option<Found<N>>, RpcError<N>>;

/// What a [`FindResult`] holds.
pub type FindResultView<N> = Result<Option<Found<N>>, RpcErrorView<N>>;

/// Where the search stands.
pub type FindBlockStep<N> = Step<FindBlock<N>, EthQuery<N>, FindResult<N>>;

/// What a [`FindBlockStep`] holds.
pub type FindBlockStepView<N> = Step<FindBlock<N>, EthQueryView<N>, FindResultView<N>>;

/// The gas price, if it could be read.
pub open spec fn fee_of(price: Result<U256, ()>) -> Option<U256> {
    match price {
        Ok(price) => Some(price),
        Err(_) => None,
    }
}

/// The block of the chain, if both it and its statuses are known.
pub open spec fn on_chain<N: Node>(
    block: Option<Block<N::Transaction>>,
    statuses: Option<Vec<TransactionStatus<N>>>,
    chain_hash: H256,
    full: bool,
    base_fee: Option<U256>,
) -> Option<Found<N>> {
    match (block, statuses) {
        (Some(block), Some(statuses)) => Some(
            Found::OnChain(Material { block, statuses, chain_hash, full, base_fee }),
        ),
        _ => None,
    }
}

/// The pending block, if both it and its statuses are known.
pub open spec fn yet_to_come<N: Node>(
    block: Option<Block<N::Transaction>>,
    statuses: Option<Vec<TransactionStatus<N>>>,
    full: bool,
    base_fee: Option<U256>,
) -> Option<Found<N>> {
    match (block, statuses) {
        (Some(block), Some(statuses)) => Some(
            Found::Pending(PendingMaterial { block, statuses, full, base_fee }),
        ),
        _ => None,
    }
}

/// The message for a pointer that points at no block.
pub open spec fn unknown_id_message(id: Seq<char>) -> Seq<char> {
    "Expect block number from id: "@ + id
}

/// The message for a pending block that could not be built, by the best hash as it is written out.
pub open spec fn runtime_access_message(best_hash: Seq<char>) -> Seq<char> {
    "Runtime access error at "@ + best_hash
}

/// The first step of the search.
pub open spec fn find_block_start<N: Node>(
    place: BlockNumberOrHash<N>,
    full: bool,
) -> FindBlockStepView<N> {
    Step::Ask(
        FindBlock::Id { pending: place is Pending, full },
        EthQueryView::NativeBlockId(place),
    )
}

impl<N: Node> FindBlock<N> {
    /// The search waits for a reply of this kind.
    pub open spec fn awaits(self, reply: EthReply<N>) -> bool {
        match self {
            FindBlock::Id { .. } => reply is Id,
            FindBlock::ChainHash { .. } => reply is ChainHash,
            FindBlock::Block { .. } => reply is Block,
            FindBlock::Statuses { .. } => reply is Statuses,
            FindBlock::GasPrice { .. } => reply is GasPrice,
            FindBlock::BestHash { .. } => reply is BestHash,
            FindBlock::Ready { .. } => reply is Extrinsics,
            FindBlock::Future { .. } => reply is Extrinsics,
            FindBlock::Pending { .. } => reply is Pending,
            FindBlock::PendingGasPrice { .. } => reply is GasPrice,
        }
    }

    /// Where the search stands after the reply.
    pub open spec fn next(self, reply: EthReply<N>) -> FindBlockStepView<N> {
        match (self, reply) {
            (FindBlock::Id { pending, full }, EthReply::Id(result)) => match result {
                Ok(Some(id)) => Step::Ask(
                    FindBlock::ChainHash { full },
                    EthQueryView::ChainHashOfId(id),
                ),
                Ok(None) => if pending {
                    Step::Ask(FindBlock::BestHash { full }, EthQueryView::BestHash)
                } else {
                    Step::Done(Ok(None))
                },
                Err(error) => Step::Done(Err(RpcErrorView::Node(error))),
            },
            (FindBlock::ChainHash { full }, EthReply::ChainHash(result)) => match result {
                Ok(chain_hash) => Step::Ask(
                    FindBlock::Block { full, chain_hash },
                    EthQueryView::CurrentBlock(chain_hash),
                ),
                Err(id) => Step::Done(Err(RpcErrorView::Internal(unknown_id_message(id@)))),
            },
            (FindBlock::Block { full, chain_hash }, EthReply::Block(block)) => Step::Ask(
                FindBlock::Statuses { full, chain_hash, block },
                EthQueryView::CurrentStatuses(chain_hash),
            ),
            (FindBlock::Statuses { full, chain_hash, block }, EthReply::Statuses(statuses)) =>
                Step::Ask(
                FindBlock::GasPrice { full, chain_hash, block, statuses },
                EthQueryView::GasPrice(chain_hash),
            ),
            (FindBlock::GasPrice { full, chain_hash, block, statuses }, EthReply::GasPrice(price))
                => Step::Done(Ok(on_chain(block, statuses, chain_hash, full, fee_of(price)))),
            (FindBlock::BestHash { full }, EthReply::BestHash(best_hash)) => Step::Ask(
                FindBlock::Ready { full, best_hash },
                EthQueryView::ReadyExtrinsics,
            ),
            (FindBlock::Ready { full, best_hash }, EthReply::Extrinsics(ready)) => Step::Ask(
                FindBlock::Future { full, best_hash, ready },
                EthQueryView::FutureExtrinsics,
            ),
            (FindBlock::Future { full, best_hash, ready }, EthReply::Extrinsics(future)) =>
                Step::Ask(
                FindBlock::Pending { full, best_hash },
                EthQueryView::PendingBlock(best_hash, ready@ + future@),
            ),
            (FindBlock::Pending { full, best_hash }, EthReply::Pending(result)) => match result {
                Ok((block, statuses)) => Step::Ask(
                    FindBlock::PendingGasPrice { full, block, statuses },
                    EthQueryView::GasPrice(best_hash),
                ),
                Err(text) => Step::Done(
                    Err(RpcErrorView::Internal(runtime_access_message(text@))),
                ),
            },
            (FindBlock::PendingGasPrice { full, block, statuses }, EthReply::GasPrice(price)) =>
                Step::Done(Ok(yet_to_come(block, statuses, full, fee_of(price)))),
            _ => arbitrary(),
        }
    }

    /// Starts to search for the block at the place.
    pub fn start(place: BlockNumberOrHash<N>, full: bool) -> (step: FindBlockStep<N>)
        ensures
            step_view(step) == find_block_start(place, full),
    {
        let pending = match &place {
            BlockNumberOrHash::Pending => true,
            BlockNumberOrHash::At(_) => false,
        };
        Step::Ask(FindBlock::Id { pending, full }, EthQuery::NativeBlockId(place))
    }

    /// Goes on with the node's reply.
    pub fn resume(self, reply: EthReply<N>) -> (step: FindBlockStep<N>)
        requires
            self.awaits(reply),
        ensures
            step_view(step) == self.next(reply),
    {
        match (self, reply) {
            (FindBlock::Id { pending, full }, EthReply::Id(result)) => match result {
                Ok(Some(id)) => Step::Ask(
                    FindBlock::ChainHash { full },
                    EthQuery::ChainHashOfId(id),
                ),
                Ok(None) => {
                    if pending {
                        Step::Ask(FindBlock::BestHash { full }, EthQuery::BestHash)
                    } else {
                        Step::Done(Ok(None))
                    }
                },
                Err(error) => Step::Done(Err(RpcError::Node(error))),
            },
            (FindBlock::ChainHash { full }, EthReply::ChainHash(result)) => match result {
                Ok(chain_hash) => Step::Ask(
                    FindBlock::Block { full, chain_hash },
                    EthQuery::CurrentBlock(chain_hash),
                ),
                Err(id) => {
                    let message = "Expect block number from id: ".to_owned().concat(id.as_str());
                    Step::Done(Err(RpcError::Internal(message)))
                },
            },
            (FindBlock::Block { full, chain_hash }, EthReply::Block(block)) => Step::Ask(
                FindBlock::Statuses { full, chain_hash, block },
                EthQuery::CurrentStatuses(chain_hash),
            ),
            (FindBlock::Statuses { full, chain_hash, block }, EthReply::Statuses(statuses)) =>
                Step::Ask(
                FindBlock::GasPrice { full, chain_hash, block, statuses },
                EthQuery::GasPrice(chain_hash),
            ),
            (FindBlock::GasPrice { full, chain_hash, block, statuses }, EthReply::GasPrice(price))
                => {
                let base_fee = price.ok();
                match (block, statuses) {
                    (Some(block), Some(statuses)) => Step::Done(
                        Ok(
                            Some(
                                Found::OnChain(
                                    Material { block, statuses, chain_hash, full, base_fee },
                                ),
                            ),
                        ),
                    ),
                    _ => Step::Done(Ok(None)),
                }
            },
            (FindBlock::BestHash { full }, EthReply::BestHash(best_hash)) => Step::Ask(
                FindBlock::Ready { full, best_hash },
                EthQuery::ReadyExtrinsics,
            ),
            (FindBlock::Ready { full, best_hash }, EthReply::Extrinsics(ready)) => Step::Ask(
                FindBlock::Future { full, best_hash, ready },
                EthQuery::FutureExtrinsics,
            ),
            (FindBlock::Future { full, best_hash, ready }, EthReply::Extrinsics(future)) => {
                let mut extrinsics = ready;
                let mut future = future;
                extrinsics.append(&mut future);
                Step::Ask(
                    FindBlock::Pending { full, best_hash },
                    EthQuery::PendingBlock(best_hash, extrinsics),
                )
            },
            (FindBlock::Pending { full, best_hash }, EthReply::Pending(result)) => match result {
                Ok((block, statuses)) => Step::Ask(
                    FindBlock::PendingGasPrice { full, block, statuses },
                    EthQuery::GasPrice(best_hash),
                ),
                Err(text) => {
                    let message = "Runtime access error at ".to_owned().concat(text.as_str());
                    Step::Done(Err(RpcError::Internal(message)))
                },
            },
            (FindBlock::PendingGasPrice { full, block, statuses }, EthReply::GasPrice(price)) => {
                let base_fee = price.ok();
                match (block, statuses) {
                    (Some(block), Some(statuses)) => Step::Done(
                        Ok(Some(Found::Pending(PendingMaterial { block, statuses, full, base_fee }))),
                    ),
                    _ => Step::Done(Ok(None)),
                }
            },
            _ => vstd::pervasive::unreached(),
        }
    }
}

/// The answer to a client that asks for the block at a place, where it waits for a reply.
pub enum BlockByNumber<N: Node> {
    /// For the block.
    Find { search: FindBlock<N> },
    /// For the hashes that go with it.
    Build { build: BuildRichBlock<N> },
}

/// What a [`BlockByNumber`] holds.
pub enum BlockByNumberView<N: Node> {
    Find { search: FindBlock<N> },
    Build { build: BuildRichBlockView<N> },
}

impl<N: Node> View for BlockByNumber<N> {
    type V = BlockByNumberView<N>;

    open spec fn view(&self) -> BlockByNumberView<N> {
        match *self {
            BlockByNumber::Find { search } => BlockByNumberView::Find { search },
            BlockByNumber::Build { build } => BlockByNumberView::Build { build: build@ },
        }
    }
}

/// Where the answer stands.
pub type ByNumberStep<N> = Step<BlockByNumber<N>, EthQuery<N>, BlockAnswer<N>>;

/// What a [`ByNumberStep`] holds.
pub type ByNumberStepView<N> = Step<BlockByNumberView<N>, EthQueryView<N>, BlockAnswerView<N>>;

/// What a [`ByNumberStep`] holds.
pub open spec fn by_number_step_view<N: Node>(step: ByNumberStep<N>) -> ByNumberStepView<N> {
    match step {
        Step::Ask(state, query) => Step::Ask(state@, query@),
        Step::Done(answer) => Step::Done(answer_view(answer)),
    }
}

/// The pending block as the client is shown it: without a hash of its own.
pub open spec fn finished_pending<N: Node>(material: PendingMaterial<N>) -> RichBlockView<N> {
    RichBlockView::Plain(
        RichBlockPartsView {
            block: material.block,
            statuses: all_present(material.statuses@),
            hash: None,
            full: material.full,
            base_fee: material.base_fee,
            is_pending: true,
        },
    )
}

/// The search for the hashes as part of the answer.
pub open spec fn in_build<N: Node>(step: BuildStepView<N>) -> ByNumberStepView<N> {
    match step {
        Step::Ask(build, query) => Step::Ask(BlockByNumberView::Build { build }, query),
        Step::Done(block) => Step::Done(Ok(Some(block))),
    }
}

/// The search for the block as part of the answer.
pub open spec fn in_find<N: Node>(
    forced: Option<Map<H256, H256>>,
    step: FindBlockStepView<N>,
) -> ByNumberStepView<N> {
    match step {
        Step::Ask(search, query) => Step::Ask(BlockByNumberView::Find { search }, query),
        Step::Done(Ok(Some(Found::OnChain(material)))) => in_build(build_start(forced, material)),
        Step::Done(Ok(Some(Found::Pending(material)))) => Step::Done(
            Ok(Some(finished_pending(material))),
        ),
        Step::Done(Ok(None)) => Step::Done(Ok(None)),
        Step::Done(Err(error)) => Step::Done(Err(error)),
    }
}

/// The first step of the answer.
pub open spec fn by_number_start<N: Node>(
    forced: Option<Map<H256, H256>>,
    place: BlockNumberOrHash<N>,
    full: bool,
) -> ByNumberStepView<N> {
    in_find(forced, find_block_start(place, full))
}

impl<N: Node> BlockByNumberView<N> {
    /// The answer waits for a reply of this kind.
    pub open spec fn awaits(self, reply: EthReply<N>) -> bool {
        match self {
            BlockByNumberView::Find { search } => search.awaits(reply),
            BlockByNumberView::Build { build } => build.awaits(reply),
        }
    }

    /// Where the answer stands after the reply, the given parent hashes being forced.
    pub open spec fn next(
        self,
        forced: Option<Map<H256, H256>>,
        reply: EthReply<N>,
    ) -> ByNumberStepView<N> {
        match self {
            BlockByNumberView::Find { search } => in_find(forced, search.next(reply)),
            BlockByNumberView::Build { build } => in_build(build.next(forced, reply)),
        }
    }
}

impl<N: Node> BlockByNumber<N> {
    fn after_build(step: BuildStep<N>) -> (next: ByNumberStep<N>)
        ensures
            by_number_step_view(next) == in_build(build_step_view(step)),
    {
        match step {
            Step::Ask(build, query) => Step::Ask(BlockByNumber::Build { build }, query),
            Step::Done(block) => Step::Done(Ok(Some(block))),
        }
    }

    fn after_find(eth: &Eth, step: FindBlockStep<N>) -> (next: ByNumberStep<N>)
        ensures
            by_number_step_view(next) == in_find(eth@, step_view(step)),
    {
        match step {
            Step::Ask(search, query) => Step::Ask(BlockByNumber::Find { search }, query),
            Step::Done(Ok(Some(Found::OnChain(material)))) => Self::after_build(
                BuildRichBlock::start(eth, material),
            ),
            Step::Done(Ok(Some(Found::Pending(material)))) => Step::Done(
                Ok(
                    Some(
                        RichBlock::Plain(
                            RichBlockParts {
                                block: material.block,
                                statuses: mark_present(material.statuses),
                                hash: None,
                                full: material.full,
                                base_fee: material.base_fee,
                                is_pending: true,
                            },
                        ),
                    ),
                ),
            ),
            Step::Done(Ok(None)) => Step::Done(Ok(None)),
            Step::Done(Err(error)) => Step::Done(Err(error)),
        }
    }

    /// Goes on with the node's reply.
    pub fn resume(self, eth: &Eth, reply: EthReply<N>) -> (step: ByNumberStep<N>)
        requires
            self@.awaits(reply),
        ensures
            by_number_step_view(step) == self@.next(eth@, reply),
    {
        match self {
            BlockByNumber::Find { search } => Self::after_find(eth, search.resume(reply)),
            BlockByNumber::Build { build } => Self::after_build(build.resume(eth, reply)),
        }
    }
}

/// The answer to a client that asks for the number of transactions at a place, where it waits for
/// a reply.
pub enum TransactionCountByNumber {
    /// For the number of transactions in the pool that are ready.
    Ready,
    /// For what is known of the block.
    Info,
}

/// Where the answer stands.
pub type CountByNumberStep<N> = Step<TransactionCountByNumber, EthQuery<N>, CountAnswer<N>>;

/// What a [`CountByNumberStep`] holds.
pub type CountByNumberStepView<N> = Step<
    TransactionCountByNumber,
    EthQueryView<N>,
    CountAnswerView<N>,
>;

/// The first step of the answer.
pub open spec fn count_by_number_start<N: Node>(
    place: BlockNumberOrHash<N>,
) -> CountByNumberStepView<N> {
    if place is Pending {
        Step::Ask(TransactionCountByNumber::Ready, EthQueryView::ReadyCount)
    } else {
        Step::Ask(TransactionCountByNumber::Info, EthQueryView::BlockInfoByNumber(place))
    }
}

impl TransactionCountByNumber {
    /// The answer waits for a reply of this kind.
    pub open spec fn awaits<N: Node>(self, reply: EthReply<N>) -> bool {
        match self {
            TransactionCountByNumber::Ready => reply is Count,
            TransactionCountByNumber::Info => reply is Info,
        }
    }

    /// Where the answer stands after the reply.
    pub open spec fn next<N: Node>(self, reply: EthReply<N>) -> CountByNumberStepView<N> {
        match (self, reply) {
            (TransactionCountByNumber::Ready, EthReply::Count(count)) => Step::Done(
                Ok(Some(count as nat)),
            ),
            (TransactionCountByNumber::Info, EthReply::Info(result)) => Step::Done(
                count_of(node_result(result)),
            ),
            _ => arbitrary(),
        }
    }

    /// Goes on with the node's reply.
    pub fn resume<N: Node>(self, reply: EthReply<N>) -> (step: CountByNumberStep<N>)
        requires
            self.awaits(reply),
        ensures
            count_step_view(step) == self.next(reply),
    {
        match (self, reply) {
            (TransactionCountByNumber::Ready, EthReply::Count(count)) => Step::Done(
                Ok(Some(U256::from_usize(count))),
            ),
            (TransactionCountByNumber::Info, EthReply::Info(result)) => match result {
                Ok(info) => Step::Done(Ok(count_transactions(info))),
                Err(error) => Step::Done(Err(RpcError::Node(error))),
            },
            _ => vstd::pervasive::unreached(),
        }
    }
}

impl Eth {
    /// Starts to answer a client that asks for the block at the place.
    pub fn block_by_number<N: Node>(&self, number_or_hash: BlockNumberOrHash<N>, full: bool) -> (step:
        ByNumberStep<N>)
        ensures
            by_number_step_view(step) == by_number_start(self@, number_or_hash, full),
    {
        BlockByNumber::after_find(self, FindBlock::start(number_or_hash, full))
    }

    /// Starts to answer a client that asks for the number of transactions of the block at the
    /// place.
    pub fn block_transaction_count_by_number<N: Node>(
        &self,
        number_or_hash: BlockNumberOrHash<N>,
    ) -> (step: CountByNumberStep<N>)
        ensures
            count_step_view(step) == count_by_number_start(number_or_hash),
    {
        match &number_or_hash {
            BlockNumberOrHash::Pending => Step::Ask(
                TransactionCountByNumber::Ready,
                EthQuery::ReadyCount,
            ),
            BlockNumberOrHash::At(_) => Step::Ask(
                TransactionCountByNumber::Info,
                EthQuery::BlockInfoByNumber(number_or_hash),
            ),
        }
    }
}

/// The whole search for a block.
pub open spec fn find_block_run<N: Node>(
    node: spec_fn(Seq<EthQueryView<N>>, EthQueryView<N>) -> EthReply<N>,
    past: Seq<EthQueryView<N>>,
    step: FindBlockStepView<N>,
    fuel: nat,
) -> Run<EthQueryView<N>, FindResultView<N>> {
    run_after(
        |state: FindBlock<N>, reply: EthReply<N>| state.next(reply),
        |query: EthQueryView<N>| is_effect(query),
        node,
        past,
        step,
        fuel,
    )
}

/// The pending block: the one that would follow the best block with the transactions of the pool,
/// those that are ready before those that wait for others.
pub open spec fn pending_block<N: Node>(
    node: spec_fn(EthQueryView<N>) -> EthReply<N>,
    full: bool,
) -> FindResultView<N> {
    let best_hash = node(EthQueryView::BestHash)->BestHash_0;
    let ready = node(EthQueryView::ReadyExtrinsics)->Extrinsics_0;
    let future = node(EthQueryView::FutureExtrinsics)->Extrinsics_0;
    match node(EthQueryView::PendingBlock(best_hash, ready@ + future@))->Pending_0 {
        Err(text) => Err(RpcErrorView::Internal(runtime_access_message(text@))),
        Ok((block, statuses)) => Ok(
            yet_to_come(
                block,
                statuses,
                full,
                fee_of(node(EthQueryView::GasPrice(best_hash))->GasPrice_0),
            ),
        ),
    }
}

/// The block at the place.
pub open spec fn block_at<N: Node>(
    node: spec_fn(EthQueryView<N>) -> EthReply<N>,
    place: BlockNumberOrHash<N>,
    full: bool,
) -> FindResultView<N> {
    match node(EthQueryView::NativeBlockId(place))->Id_0 {
        Err(error) => Err(RpcErrorView::Node(error)),
        Ok(None) => if place is Pending {
            pending_block(node, full)
        } else {
            Ok(None)
        },
        Ok(Some(id)) => match node(EthQueryView::ChainHashOfId(id))->ChainHash_0 {
            Err(id) => Err(RpcErrorView::Internal(unknown_id_message(id@))),
            Ok(chain_hash) => Ok(
                on_chain(
                    node(EthQueryView::CurrentBlock(chain_hash))->Block_0,
                    node(EthQueryView::CurrentStatuses(chain_hash))->Statuses_0,
                    chain_hash,
                    full,
                    fee_of(node(EthQueryView::GasPrice(chain_hash))->GasPrice_0),
                ),
            ),
        },
    }
}

/// A number of queries that the search for a block does not exceed.
pub open spec fn find_block_bound() -> nat {
    6
}

/// The search for a block comes to its end, changes nothing, and finds what `block_at` says.
pub proof fn law_find_block<N: Node>(
    node: spec_fn(Seq<EthQueryView<N>>, EthQueryView<N>) -> EthReply<N>,
    past: Seq<EthQueryView<N>>,
    place: BlockNumberOrHash<N>,
    full: bool,
    fuel: nat,
)
    requires
        only_caches_change(node),
        fuel >= find_block_bound(),
    ensures
        find_block_run(node, past, find_block_start(place, full), fuel) == (Run {
            effects: Seq::<EthQueryView<N>>::empty(),
            outcome: Some(block_at(at(node, past), place, full)),
        }),
{
    reveal_with_fuel(run_after, 7);
}

/// The whole answer.
pub open spec fn by_number_run<N: Node>(
    node: spec_fn(Seq<EthQueryView<N>>, EthQueryView<N>) -> EthReply<N>,
    past: Seq<EthQueryView<N>>,
    forced: Option<Map<H256, H256>>,
    step: ByNumberStepView<N>,
    fuel: nat,
) -> AnswerRun<N> {
    run_after(
        |state: BlockByNumberView<N>, reply: EthReply<N>| state.next(forced, reply),
        |query: EthQueryView<N>| is_effect(query),
        node,
        past,
        step,
        fuel,
    )
}

/// The answer to a client that asks for the block at the place: the block that stands there, with
/// the hashes that clients are shown, or the pending block without any.
pub open spec fn answer_by_number<N: Node>(
    node: spec_fn(Seq<EthQueryView<N>>, EthQueryView<N>) -> EthReply<N>,
    past: Seq<EthQueryView<N>>,
    forced: Option<Map<H256, H256>>,
    place: BlockNumberOrHash<N>,
    full: bool,
) -> AnswerRun<N> {
    match block_at(at(node, past), place, full) {
        Ok(Some(Found::OnChain(material))) => answer_from(node, past, forced, Some(material)),
        Ok(Some(Found::Pending(material))) => Run {
            effects: Seq::empty(),
            outcome: Some(Ok(Some(finished_pending(material)))),
        },
        Ok(None) => answer_from(node, past, forced, None),
        Err(error) => Run { effects: Seq::empty(), outcome: Some(Err(error)) },
    }
}

proof fn lemma_in_build<N: Node>(
    node: spec_fn(Seq<EthQueryView<N>>, EthQueryView<N>) -> EthReply<N>,
    past: Seq<EthQueryView<N>>,
    forced: Option<Map<H256, H256>>,
    material: Material<N>,
    fuel: nat,
)
    requires
        only_caches_change(node),
        fuel >= build_bound(),
    ensures
        by_number_run(node, past, forced, in_build(build_start(forced, material)), fuel) == answer_from(
            node,
            past,
            forced,
            Some(material),
        ),
{
    law_build_rich_block(node, past, forced, material, fuel);
    let wrap = |build: BuildRichBlockView<N>| BlockByNumberView::Build { build };
    let after = |block: RichBlockView<N>| -> ByNumberStepView<N> { Step::Done(Ok(Some(block))) };
    let start = build_start(forced, material);
    law_run_after_embedded(
        |state: BuildRichBlockView<N>, reply: EthReply<N>| state.next(forced, reply),
        |state: BlockByNumberView<N>, reply: EthReply<N>| state.next(forced, reply),
        wrap,
        after,
        |query: EthQueryView<N>| is_effect(query),
        node,
        past,
        start,
        fuel,
        0,
    );
    assert(embed(wrap, after, start) == in_build(start));
    let effects = built(node, past, forced, material).effects;
    assert(effects + Seq::<EthQueryView<N>>::empty() =~= effects);
}

/// The answer to a client that asks for the block at a place is given, on a node of which the
/// caches alone change meanwhile, and is the one that `answer_by_number` says.
pub proof fn law_block_by_number<N: Node>(
    node: spec_fn(Seq<EthQueryView<N>>, EthQueryView<N>) -> EthReply<N>,
    past: Seq<EthQueryView<N>>,
    forced: Option<Map<H256, H256>>,
    place: BlockNumberOrHash<N>,
    full: bool,
    fuel: nat,
)
    requires
        only_caches_change(node),
        fuel >= find_block_bound() + build_bound(),
    ensures
        by_number_run(node, past, forced, by_number_start(forced, place, full), fuel)
            == answer_by_number(node, past, forced, place, full),
{
    let first = find_block_bound();
    let rest = (fuel - first) as nat;
    law_find_block(node, past, place, full, first);
    assert(past + Seq::<EthQueryView<N>>::empty() =~= past);
    let wrap = |search: FindBlock<N>| BlockByNumberView::Find { search };
    let after = |result: FindResultView<N>| in_find(forced, Step::Done(result));
    let start = find_block_start(place, full);
    let found = block_at(at(node, past), place, full);
    if let Ok(Some(Found::OnChain(material))) = found {
        lemma_in_build(node, past, forced, material, rest);
    }
    law_run_after_embedded(
        |state: FindBlock<N>, reply: EthReply<N>| state.next(reply),
        |state: BlockByNumberView<N>, reply: EthReply<N>| state.next(forced, reply),
        wrap,
        after,
        |query: EthQueryView<N>| is_effect(query),
        node,
        past,
        start,
        first,
        rest,
    );
    assert(embed(wrap, after, start) == in_find(forced, start));
    let answer = answer_by_number(node, past, forced, place, full);
    assert(Seq::<EthQueryView<N>>::empty() + answer.effects =~= answer.effects);
}

/// The answer to a client that asks for the number of transactions at a place is given after one
/// query, changes nothing, and counts the transactions of the block there, or, for the pending
/// block, those of the pool that are ready.
pub proof fn law_block_transaction_count_by_number<N: Node>(
    node: spec_fn(EthQueryView<N>) -> EthReply<N>,
    place: BlockNumberOrHash<N>,
    fuel: nat,
)
    requires
        answers_all(node),
        fuel >= 1,
    ensures
        run(
            |state: TransactionCountByNumber, reply: EthReply<N>| state.next(reply),
            |query: EthQueryView<N>| is_effect(query),
            node,
            count_by_number_start(place),
            fuel,
        ) == (Run {
            effects: Seq::<EthQueryView<N>>::empty(),
            outcome: Some(
                if place is Pending {
                    Ok(Some(node(EthQueryView::ReadyCount)->Count_0 as nat))
                } else {
                    count_of(
                        node_result(node(EthQueryView::BlockInfoByNumber(place))->Info_0),
                    )
                },
            ),
        }),
{
    reveal_with_fuel(run, 2);
}

} // verus!

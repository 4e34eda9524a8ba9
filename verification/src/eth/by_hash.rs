//! Answers to clients that ask by a hash.

use vstd::prelude::*;

use crate::eth::find::{
    find_bound, find_start, found_info, law_find_info, FindInfo, FindStep, FindStepView,
};
use crate::eth::queries::{
    is_effect, only_caches_change, step_view, BlockInfo, Eth, EthQuery, EthQueryView, EthReply,
    RpcError, RpcErrorView,
};
use crate::eth::rich::{
    answer_view, build_bound, build_start, build_step_view, built, law_build_rich_block,
    BlockAnswer, BlockAnswerView, BuildRichBlock, BuildRichBlockView, BuildStep, BuildStepView,
    Material, RichBlockView,
};
use crate::machine::{at, embed, law_run_after_embedded, run_after, Run, Step};
use crate::node::Node;
use crate::primitives::{H256, U256};

verus! {

/// The answer to a client that asks for a block by a hash, where it waits for a reply.
pub enum BlockByHash<N: Node> {
    /// For what is known of the block.
    Info { full: bool, search: FindInfo },
    /// For the hashes that go with it.
    Build { build: BuildRichBlock<N> },
}

/// What a [`BlockByHash`] holds.
pub enum BlockByHashView<N: Node> {
    Info { full: bool, search: FindInfo },
    Build { build: BuildRichBlockView<N> },
}

impl<N: Node> View for BlockByHash<N> {
    type V = BlockByHashView<N>;

    open spec fn view(&self) -> BlockByHashView<N> {
        match *self {
            BlockByHash::Info { full, search } => BlockByHashView::Info { full, search },
            BlockByHash::Build { build } => BlockByHashView::Build { build: build@ },
        }
    }
}

/// Where the answer stands.
pub type ByHashStep<N> = Step<BlockByHash<N>, EthQuery<N>, BlockAnswer<N>>;

/// What a [`ByHashStep`] holds.
pub type ByHashStepView<N> = Step<BlockByHashView<N>, EthQueryView<N>, BlockAnswerView<N>>;

/// What a [`ByHashStep`] holds.
pub open spec fn by_hash_step_view<N: Node>(step: ByHashStep<N>) -> ByHashStepView<N> {
    match step {
        Step::Ask(state, query) => Step::Ask(state@, query@),
        Step::Done(answer) => Step::Done(answer_view(answer)),
    }
}

/// What a block for the client can be made of, if both the block and its statuses are known.
pub open spec fn material_of<N: Node>(info: BlockInfo<N>, full: bool) -> Option<Material<N>> {
    match (info.block, info.statuses) {
        (Some(block), Some(statuses)) => Some(
            Material {
                block,
                statuses,
                chain_hash: info.substrate_hash,
                full,
                base_fee: Some(info.base_fee),
            },
        ),
        _ => None,
    }
}

/// The search for the hashes as part of the answer.
pub open spec fn in_build<N: Node>(step: BuildStepView<N>) -> ByHashStepView<N> {
    match step {
        Step::Ask(build, query) => Step::Ask(BlockByHashView::Build { build }, query),
        Step::Done(block) => Step::Done(Ok(Some(block))),
    }
}

/// The lookup as part of the answer.
pub open spec fn in_info<N: Node>(
    forced: Option<Map<H256, H256>>,
    full: bool,
    step: FindStepView<N>,
) -> ByHashStepView<N> {
    match step {
        Step::Ask(search, query) => Step::Ask(BlockByHashView::Info { full, search }, query),
        Step::Done(Ok(info)) => match material_of(info, full) {
            Some(material) => in_build(build_start(forced, material)),
            None => Step::Done(Ok(None)),
        },
        Step::Done(Err(error)) => Step::Done(Err(error)),
    }
}

/// The first step of the answer.
pub open spec fn by_hash_start<N: Node>(
    forced: Option<Map<H256, H256>>,
    hash: H256,
    full: bool,
) -> ByHashStepView<N> {
    in_info(forced, full, find_start(hash))
}

impl<N: Node> BlockByHashView<N> {
    /// The answer waits for a reply of this kind.
    pub open spec fn awaits(self, reply: EthReply<N>) -> bool {
        match self {
            BlockByHashView::Info { search, .. } => search.awaits(reply),
            BlockByHashView::Build { build } => build.awaits(reply),
        }
    }

    /// The lookup under way is a valid one.
    pub open spec fn is_valid(self) -> bool {
        match self {
            BlockByHashView::Info { search, .. } => search.is_valid(),
            BlockByHashView::Build { .. } => true,
        }
    }

    /// Where the answer stands after the reply, the given parent hashes being forced.
    pub open spec fn next(
        self,
        forced: Option<Map<H256, H256>>,
        reply: EthReply<N>,
    ) -> ByHashStepView<N> {
        match self {
            BlockByHashView::Info { full, search } => in_info(forced, full, search.next(reply)),
            BlockByHashView::Build { build } => in_build(build.next(forced, reply)),
        }
    }
}

impl<N: Node> BlockByHash<N> {
    fn after_build(step: BuildStep<N>) -> (next: ByHashStep<N>)
        ensures
            by_hash_step_view(next) == in_build(build_step_view(step)),
            next matches Step::Ask(state, _) ==> state@.is_valid(),
    {
        match step {
            Step::Ask(build, query) => Step::Ask(BlockByHash::Build { build }, query),
            Step::Done(block) => Step::Done(Ok(Some(block))),
        }
    }

    fn after_info(eth: &Eth, full: bool, step: FindStep<N>) -> (next: ByHashStep<N>)
        requires
            step matches Step::Ask(state, _) ==> state.is_valid(),
        ensures
            by_hash_step_view(next) == in_info(eth@, full, step_view(step)),
            next matches Step::Ask(state, _) ==> state@.is_valid(),
    {
        match step {
            Step::Ask(search, query) => Step::Ask(BlockByHash::Info { full, search }, query),
            Step::Done(Ok(info)) => match (info.block, info.statuses) {
                (Some(block), Some(statuses)) => {
                    let material = Material {
                        block,
                        statuses,
                        chain_hash: info.substrate_hash,
                        full,
                        base_fee: Some(info.base_fee),
                    };
                    Self::after_build(BuildRichBlock::start(eth, material))
                },
                _ => Step::Done(Ok(None)),
            },
            Step::Done(Err(error)) => Step::Done(Err(error)),
        }
    }

    /// Goes on with the node's reply.
    pub fn resume(self, eth: &Eth, reply: EthReply<N>) -> (step: ByHashStep<N>)
        requires
            self@.is_valid(),
            self@.awaits(reply),
        ensures
            by_hash_step_view(step) == self@.next(eth@, reply),
            step matches Step::Ask(state, _) ==> state@.is_valid(),
    {
        match self {
            BlockByHash::Info { full, search } => {
                let found = search.resume(eth, reply);
                Self::after_info(eth, full, found)
            },
            BlockByHash::Build { build } => Self::after_build(build.resume(eth, reply)),
        }
    }
}

/// The answer to a client that asks for the number of transactions of a block by a hash, where it
/// waits for a reply.
pub struct TransactionCountByHash {
    pub search: FindInfo,
}

/// The answer: a number, if there is one.
pub type CountAnswer<N> = Result<Option<U256>, RpcError<N>>;

/// What a [`CountAnswer`] holds.
pub type CountAnswerView<N> = Result<Option<nat>, RpcErrorView<N>>;

/// What a [`CountAnswer`] holds.
pub open spec fn count_view<N: Node>(answer: CountAnswer<N>) -> CountAnswerView<N> {
    match answer {
        Ok(Some(count)) => Ok(Some(count@)),
        Ok(None) => Ok(None),
        Err(error) => Err(error@),
    }
}

/// Where the answer stands.
pub type CountByHashStep<N> = Step<TransactionCountByHash, EthQuery<N>, CountAnswer<N>>;

/// What a [`CountByHashStep`] holds.
pub type CountByHashStepView<N> = Step<
    TransactionCountByHash,
    EthQueryView<N>,
    CountAnswerView<N>,
>;

/// What a [`Step`] holds whose result is a number of transactions.
pub open spec fn count_step_view<S, N: Node>(step: Step<S, EthQuery<N>, CountAnswer<N>>) -> Step<
    S,
    EthQueryView<N>,
    CountAnswerView<N>,
> {
    match step {
        Step::Ask(state, query) => Step::Ask(state, query@),
        Step::Done(answer) => Step::Done(count_view(answer)),
    }
}

/// The number of transactions, if the block is known.
pub open spec fn count_of<N: Node>(info: Result<BlockInfo<N>, RpcErrorView<N>>) -> CountAnswerView<
    N,
> {
    match info {
        Ok(info) => match info.block {
            Some(block) => Ok(Some(block.transactions@.len())),
            None => Ok(None),
        },
        Err(error) => Err(error),
    }
}

/// The number of transactions, if the block is known.
pub(crate) fn count_transactions<N: Node>(info: BlockInfo<N>) -> (count: Option<U256>)
    ensures
        count_view::<N>(Ok(count)) == count_of::<N>(Ok(info)),
{
    match info.block {
        Some(block) => Some(U256::from_usize(block.transactions.len())),
        None => None,
    }
}

/// The lookup as part of the answer.
pub open spec fn in_count<N: Node>(step: FindStepView<N>) -> CountByHashStepView<N> {
    match step {
        Step::Ask(search, query) => Step::Ask(TransactionCountByHash { search }, query),
        Step::Done(info) => Step::Done(count_of(info)),
    }
}

impl TransactionCountByHash {
    /// Where the answer stands after the reply.
    pub open spec fn next<N: Node>(self, reply: EthReply<N>) -> CountByHashStepView<N> {
        in_count(self.search.next(reply))
    }

    fn after_info<N: Node>(step: FindStep<N>) -> (next: CountByHashStep<N>)
        requires
            step matches Step::Ask(state, _) ==> state.is_valid(),
        ensures
            count_step_view(next) == in_count(step_view(step)),
            next matches Step::Ask(state, _) ==> state.search.is_valid(),
    {
        match step {
            Step::Ask(search, query) => Step::Ask(TransactionCountByHash { search }, query),
            Step::Done(Ok(info)) => Step::Done(Ok(count_transactions(info))),
            Step::Done(Err(error)) => Step::Done(Err(error)),
        }
    }

    /// Goes on with the node's reply.
    pub fn resume<N: Node>(self, eth: &Eth, reply: EthReply<N>) -> (step: CountByHashStep<N>)
        requires
            self.search.is_valid(),
            self.search.awaits(reply),
        ensures
            count_step_view(step) == self.next(reply),
            step matches Step::Ask(state, _) ==> state.search.is_valid(),
    {
        Self::after_info(self.search.resume(eth, reply))
    }
}

impl Eth {
    /// Starts to answer a client that asks for the block with the hash.
    pub fn block_by_hash<N: Node>(&self, hash: H256, full: bool) -> (step: ByHashStep<N>)
        ensures
            by_hash_step_view(step) == by_hash_start::<N>(self@, hash, full),
            step matches Step::Ask(state, _) ==> state@.is_valid(),
    {
        BlockByHash::after_info(self, full, FindInfo::start(hash))
    }

    /// Starts to answer a client that asks for the number of transactions of the block with the
    /// hash.
    pub fn block_transaction_count_by_hash<N: Node>(&self, hash: H256) -> (step: CountByHashStep<N>)
        ensures
            count_step_view(step) == in_count(find_start::<N>(hash)),
            step matches Step::Ask(state, _) ==> state.search.is_valid(),
    {
        TransactionCountByHash::after_info(FindInfo::start(hash))
    }
}

/// What is done to the caches, and the answer.
pub type AnswerRun<N> = Run<EthQueryView<N>, BlockAnswerView<N>>;

/// The whole answer.
pub open spec fn by_hash_run<N: Node>(
    node: spec_fn(Seq<EthQueryView<N>>, EthQueryView<N>) -> EthReply<N>,
    past: Seq<EthQueryView<N>>,
    forced: Option<Map<H256, H256>>,
    step: ByHashStepView<N>,
    fuel: nat,
) -> AnswerRun<N> {
    run_after(
        |state: BlockByHashView<N>, reply: EthReply<N>| state.next(forced, reply),
        |query: EthQueryView<N>| is_effect(query),
        node,
        past,
        step,
        fuel,
    )
}

/// The answer from what is known of the block, once the queries in `past` have changed the caches.
pub open spec fn answer_from<N: Node>(
    node: spec_fn(Seq<EthQueryView<N>>, EthQueryView<N>) -> EthReply<N>,
    past: Seq<EthQueryView<N>>,
    forced: Option<Map<H256, H256>>,
    material: Option<Material<N>>,
) -> AnswerRun<N> {
    match material {
        Some(material) => Run {
            effects: built(node, past, forced, material).effects,
            outcome: Some(Ok(Some(built(node, past, forced, material).outcome->0))),
        },
        None => Run { effects: Seq::empty(), outcome: Some(Ok(None)) },
    }
}

/// The answer to a client that asks for the block with the hash: the block that is found under it,
/// with the hashes that clients are shown, if the block and its statuses are known. What the lookup
/// caches is in the caches when the hashes are searched for.
pub open spec fn answer_by_hash<N: Node>(
    node: spec_fn(Seq<EthQueryView<N>>, EthQueryView<N>) -> EthReply<N>,
    past: Seq<EthQueryView<N>>,
    forced: Option<Map<H256, H256>>,
    hash: H256,
    full: bool,
) -> AnswerRun<N> {
    let found = found_info(at(node, past), hash);
    match found.outcome->0 {
        Err(error) => Run { effects: found.effects, outcome: Some(Err(error)) },
        Ok(info) => {
            let rest = answer_from(node, past + found.effects, forced, material_of(info, full));
            Run { effects: found.effects + rest.effects, outcome: rest.outcome }
        },
    }
}

proof fn lemma_in_build<N: Node>(
    node: spec_fn(Seq<EthQueryView<N>>, EthQueryView<N>) -> EthReply<N>,
    past: Seq<EthQueryView<N>>,
    forced: Option<Map<H256, H256>>,
    material: Material<N>,
    fuel: nat,
)
    requires
        only_caches_change(node),
        fuel >= build_bound(),
    ensures
        by_hash_run(node, past, forced, in_build(build_start(forced, material)), fuel) == answer_from(
            node,
            past,
            forced,
            Some(material),
        ),
{
    law_build_rich_block(node, past, forced, material, fuel);
    let wrap = |build: BuildRichBlockView<N>| BlockByHashView::Build { build };
    let after = |block: RichBlockView<N>| -> ByHashStepView<N> { Step::Done(Ok(Some(block))) };
    let start = build_start(forced, material);
    law_run_after_embedded(
        |state: BuildRichBlockView<N>, reply: EthReply<N>| state.next(forced, reply),
        |state: BlockByHashView<N>, reply: EthReply<N>| state.next(forced, reply),
        wrap,
        after,
        |query: EthQueryView<N>| is_effect(query),
        node,
        past,
        start,
        fuel,
        0,
    );
    assert(embed(wrap, after, start) == in_build(start));
    let effects = built(node, past, forced, material).effects;
    assert(effects + Seq::<EthQueryView<N>>::empty() =~= effects);
}

/// The answer to a client that asks for a block by a hash is given, on a node of which the caches
/// alone change meanwhile, and is the one that `answer_by_hash` says.
pub proof fn law_block_by_hash<N: Node>(
    node: spec_fn(Seq<EthQueryView<N>>, EthQueryView<N>) -> EthReply<N>,
    past: Seq<EthQueryView<N>>,
    forced: Option<Map<H256, H256>>,
    hash: H256,
    full: bool,
    fuel: nat,
)
    requires
        only_caches_change(node),
        fuel >= find_bound(at(node, past), hash) + build_bound(),
    ensures
        by_hash_run(node, past, forced, by_hash_start::<N>(forced, hash, full), fuel) == answer_by_hash(
            node,
            past,
            forced,
            hash,
            full,
        ),
{
    let first = find_bound(at(node, past), hash);
    let rest = (fuel - first) as nat;
    law_find_info(node, past, hash, first);
    let found = found_info(at(node, past), hash);
    let wrap = |search: FindInfo| -> BlockByHashView<N> { BlockByHashView::Info { full, search } };
    let after = |result: Result<BlockInfo<N>, RpcErrorView<N>>|
        in_info(forced, full, Step::Done(result));
    let start = find_start::<N>(hash);
    if let Ok(info) = found.outcome->0 {
        if let Some(material) = material_of(info, full) {
            lemma_in_build(node, past + found.effects, forced, material, rest);
        }
    }
    law_run_after_embedded(
        |state: FindInfo, reply: EthReply<N>| state.next(reply),
        |state: BlockByHashView<N>, reply: EthReply<N>| state.next(forced, reply),
        wrap,
        after,
        |query: EthQueryView<N>| is_effect(query),
        node,
        past,
        start,
        first,
        rest,
    );
    assert(embed(wrap, after, start) == in_info(forced, full, start));
    assert(found.effects + Seq::<EthQueryView<N>>::empty() =~= found.effects);
}

/// The whole answer to a client that asks for a number of transactions.
pub open spec fn count_by_hash_run<N: Node>(
    node: spec_fn(Seq<EthQueryView<N>>, EthQueryView<N>) -> EthReply<N>,
    past: Seq<EthQueryView<N>>,
    step: CountByHashStepView<N>,
    fuel: nat,
) -> Run<EthQueryView<N>, CountAnswerView<N>> {
    run_after(
        |state: TransactionCountByHash, reply: EthReply<N>| state.next(reply),
        |query: EthQueryView<N>| is_effect(query),
        node,
        past,
        step,
        fuel,
    )
}

/// The answer to a client that asks for a number of transactions by a hash is given, on a node of
/// which the caches alone change meanwhile, and counts the transactions of the same block as is
/// found for a client that asks for the block.
pub proof fn law_block_transaction_count_by_hash<N: Node>(
    node: spec_fn(Seq<EthQueryView<N>>, EthQueryView<N>) -> EthReply<N>,
    past: Seq<EthQueryView<N>>,
    hash: H256,
    fuel: nat,
)
    requires
        only_caches_change(node),
        fuel >= find_bound(at(node, past), hash),
    ensures
        count_by_hash_run(node, past, in_count(find_start::<N>(hash)), fuel).effects == found_info(
            at(node, past),
            hash,
        ).effects,
        count_by_hash_run(node, past, in_count(find_start::<N>(hash)), fuel).outcome == Some(
            count_of(found_info(at(node, past), hash).outcome->0),
        ),
{
    law_find_info(node, past, hash, fuel);
    let wrap = |search: FindInfo| TransactionCountByHash { search };
    let after = |result: Result<BlockInfo<N>, RpcErrorView<N>>| -> CountByHashStepView<N>
        { Step::Done(count_of(result)) };
    let start = find_start::<N>(hash);
    law_run_after_embedded(
        |state: FindInfo, reply: EthReply<N>| state.next(reply),
        |state: TransactionCountByHash, reply: EthReply<N>| state.next(reply),
        wrap,
        after,
        |query: EthQueryView<N>| is_effect(query),
        node,
        past,
        start,
        fuel,
        0,
    );
    assert(embed(wrap, after, start) == in_count(start));
    let effects = found_info(at(node, past), hash).effects;
    assert(effects + Seq::<EthQueryView<N>>::empty() =~= effects);
}

/// A client that is shown a block by a hash is told, by the same hash, that block's number of
/// transactions.
pub proof fn law_count_is_that_of_shown_block<N: Node>(
    node: spec_fn(Seq<EthQueryView<N>>, EthQueryView<N>) -> EthReply<N>,
    past: Seq<EthQueryView<N>>,
    forced: Option<Map<H256, H256>>,
    hash: H256,
    full: bool,
)
    requires
        answer_by_hash(node, past, forced, hash, full).outcome matches Some(Ok(Some(_))),
    ensures
        ({
            let shown = answer_by_hash(node, past, forced, hash, full).outcome->0->Ok_0->0;
            &&& shown matches RichBlockView::WithParentHash(parts, _)
            &&& !parts.is_pending
            &&& count_of(found_info(at(node, past), hash).outcome->0) == Ok::<Option<nat>, RpcErrorView<N>>(
                Some(parts.block.transactions@.len()),
            )
        }),
{
}

} // verus!

//! The block as an Ethereum client is shown it.

use vstd::prelude::*;

use crate::block::Block;
use crate::eth::hash::{
    hash_start, hash_step_view, parent_start, parent_step_view, HashStep, HashStepView, ParentStep,
    ParentStepView, RpcCompatibleHash, RpcCompatibleHashView, RpcCompatibleParentHash,
    RpcCompatibleParentHashView,
};
use crate::eth::hash_laws::{
    hash_bound, hash_of, law_rpc_compatible_hash, law_rpc_compatible_parent_hash, parent_hash_of,
};
use crate::eth::queries::{
    is_effect, only_caches_change, Eth, EthQuery, EthQueryView, EthReply, RpcError, RpcErrorView,
    TransactionStatus,
};
use crate::machine::{at, embed, law_run_after_embedded, run_after, Run, Step};
use crate::node::Node;
use crate::primitives::{H256, U256};

verus! {

/// What a block for a client is built of.
pub struct RichBlockParts<N: Node> {
    pub block: Block<N::Transaction>,
    pub statuses: Vec<Option<TransactionStatus<N>>>,
    pub hash: Option<H256>,
    pub full: bool,
    pub base_fee: Option<U256>,
    pub is_pending: bool,
}

/// What [`RichBlockParts`] hold.
pub struct RichBlockPartsView<N: Node> {
    pub block: Block<N::Transaction>,
    pub statuses: Seq<Option<TransactionStatus<N>>>,
    pub hash: Option<H256>,
    pub full: bool,
    pub base_fee: Option<U256>,
    pub is_pending: bool,
}

impl<N: Node> View for RichBlockParts<N> {
    type V = RichBlockPartsView<N>;

    open spec fn view(&self) -> RichBlockPartsView<N> {
        RichBlockPartsView {
            block: self.block,
            statuses: self.statuses@,
            hash: self.hash,
            full: self.full,
            base_fee: self.base_fee,
            is_pending: self.is_pending,
        }
    }
}

/// A block for a client, still to be put together.
pub enum RichBlock<N: Node> {
    /// From the parts alone.
    Plain(RichBlockParts<N>),
    /// From the parts and what the client is shown as the hash of the parent.
    WithParentHash(RichBlockParts<N>, Option<H256>),
}

/// What a [`RichBlock`] holds.
pub enum RichBlockView<N: Node> {
    Plain(RichBlockPartsView<N>),
    WithParentHash(RichBlockPartsView<N>, Option<H256>),
}

impl<N: Node> View for RichBlock<N> {
    type V = RichBlockView<N>;

    open spec fn view(&self) -> RichBlockView<N> {
        match *self {
            RichBlock::Plain(parts) => RichBlockView::Plain(parts@),
            RichBlock::WithParentHash(parts, parent_hash) => RichBlockView::WithParentHash(
                parts@,
                parent_hash,
            ),
        }
    }
}

/// The answer: a block, if there is one.
pub type BlockAnswer<N> = Result<Option<RichBlock<N>>, RpcError<N>>;

/// What a [`BlockAnswer`] holds.
pub type BlockAnswerView<N> = Result<Option<RichBlockView<N>>, RpcErrorView<N>>;

/// What a [`BlockAnswer`] holds.
pub open spec fn answer_view<N: Node>(answer: BlockAnswer<N>) -> BlockAnswerView<N> {
    match answer {
        Ok(Some(block)) => Ok(Some(block@)),
        Ok(None) => Ok(None),
        Err(error) => Err(error@),
    }
}

/// Each status is there.
pub open spec fn all_present<A>(values: Seq<A>) -> Seq<Option<A>> {
    values.map_values(|value: A| Some(value))
}

/// Marks each value as being there.
pub(crate) fn mark_present<A>(values: Vec<A>) -> (marked: Vec<Option<A>>)
    ensures
        marked@ == all_present(values@),
{
    let mut marked: Vec<Option<A>> = Vec::new();
    let ghost all = values@;
    for value in iter: values
        invariant
            iter.seq() == all,
            marked@ == all_present(all.take(iter.index() as int)),
    {
        proof {
            let i = iter.index() as int;
            assert(all_present(all.take(i + 1)) =~= all_present(all.take(i)).push(Some(all[i])));
        }
        marked.push(Some(value));
    }
    assert(all.take(all.len() as int) =~= all);
    marked
}

/// A block with its statuses, for which the hashes are still to be found.
pub struct Material<N: Node> {
    pub block: Block<N::Transaction>,
    pub statuses: Vec<TransactionStatus<N>>,
    pub chain_hash: H256,
    pub full: bool,
    pub base_fee: Option<U256>,
}

/// The search for the hashes that go with a block, where it waits for a reply.
pub enum BuildRichBlock<N: Node> {
    /// For the hash of the parent.
    ParentHash { material: Material<N>, parent_search: RpcCompatibleParentHash },
    /// For the hash of the block.
    Hash { material: Material<N>, parent_hash: Option<H256>, search: RpcCompatibleHash },
}

/// What a [`BuildRichBlock`] holds.
pub enum BuildRichBlockView<N: Node> {
    ParentHash { material: Material<N>, parent_search: RpcCompatibleParentHashView },
    Hash { material: Material<N>, parent_hash: Option<H256>, search: RpcCompatibleHashView },
}

impl<N: Node> View for BuildRichBlock<N> {
    type V = BuildRichBlockView<N>;

    open spec fn view(&self) -> BuildRichBlockView<N> {
        match *self {
            BuildRichBlock::ParentHash { material, parent_search } => {
                BuildRichBlockView::ParentHash { material, parent_search: parent_search@ }
            },
            BuildRichBlock::Hash { material, parent_hash, search } => BuildRichBlockView::Hash {
                material,
                parent_hash,
                search: search@,
            },
        }
    }
}

/// Where the search for the hashes stands.
pub type BuildStep<N> = Step<BuildRichBlock<N>, EthQuery<N>, RichBlock<N>>;

/// What a [`BuildStep`] holds.
pub type BuildStepView<N> = Step<BuildRichBlockView<N>, EthQueryView<N>, RichBlockView<N>>;

/// What a [`BuildStep`] holds.
pub open spec fn build_step_view<N: Node>(step: BuildStep<N>) -> BuildStepView<N> {
    match step {
        Step::Ask(state, query) => Step::Ask(state@, query@),
        Step::Done(block) => Step::Done(block@),
    }
}

/// The block with the hashes that were found.
pub open spec fn finished<N: Node>(
    material: Material<N>,
    hash: Option<H256>,
    parent_hash: Option<H256>,
) -> RichBlockView<N> {
    RichBlockView::WithParentHash(
        RichBlockPartsView {
            block: material.block,
            statuses: all_present(material.statuses@),
            hash,
            full: material.full,
            base_fee: material.base_fee,
            is_pending: false,
        },
        parent_hash,
    )
}

/// The search for the hash of the block as part of the search for both.
pub open spec fn in_own_hash<N: Node>(
    material: Material<N>,
    parent_hash: Option<H256>,
    step: HashStepView<N>,
) -> BuildStepView<N> {
    match step {
        Step::Ask(search, query) => Step::Ask(
            BuildRichBlockView::Hash { material, parent_hash, search },
            query,
        ),
        Step::Done(hash) => Step::Done(finished(material, hash, parent_hash)),
    }
}

/// The search for the hash of the parent as part of the search for both.
pub open spec fn in_parent_hash<N: Node>(
    material: Material<N>,
    step: ParentStepView<N>,
) -> BuildStepView<N> {
    match step {
        Step::Ask(parent_search, query) => Step::Ask(
            BuildRichBlockView::ParentHash { material, parent_search },
            query,
        ),
        Step::Done(parent_hash) => in_own_hash(
            material,
            parent_hash,
            hash_start(material.chain_hash),
        ),
    }
}

/// The first step of the search for the hashes.
pub open spec fn build_start<N: Node>(
    forced: Option<Map<H256, H256>>,
    material: Material<N>,
) -> BuildStepView<N> {
    in_parent_hash(material, parent_start(forced, material.chain_hash))
}

impl<N: Node> BuildRichBlockView<N> {
    /// The search waits for a reply of this kind.
    pub open spec fn awaits(self, reply: EthReply<N>) -> bool {
        match self {
            BuildRichBlockView::ParentHash { parent_search, .. } => parent_search.awaits(reply),
            BuildRichBlockView::Hash { search, .. } => search.awaits(reply),
        }
    }

    /// Where the search stands after the reply, the given parent hashes being forced.
    pub open spec fn next(
        self,
        forced: Option<Map<H256, H256>>,
        reply: EthReply<N>,
    ) -> BuildStepView<N> {
        match self {
            BuildRichBlockView::ParentHash { material, parent_search } => in_parent_hash(
                material,
                parent_search.next(forced, reply),
            ),
            BuildRichBlockView::Hash { material, parent_hash, search } => in_own_hash(
                material,
                parent_hash,
                search.next(forced, reply),
            ),
        }
    }
}

impl<N: Node> BuildRichBlock<N> {
    fn after_own_hash(
        material: Material<N>,
        parent_hash: Option<H256>,
        step: HashStep<N>,
    ) -> (next: BuildStep<N>)
        ensures
            build_step_view(next) == in_own_hash(material, parent_hash, hash_step_view(step)),
    {
        match step {
            Step::Ask(search, query) => Step::Ask(
                BuildRichBlock::Hash { material, parent_hash, search },
                query,
            ),
            Step::Done(hash) => Step::Done(
                RichBlock::WithParentHash(
                    RichBlockParts {
                        block: material.block,
                        statuses: mark_present(material.statuses),
                        hash,
                        full: material.full,
                        base_fee: material.base_fee,
                        is_pending: false,
                    },
                    parent_hash,
                ),
            ),
        }
    }

    fn after_parent_hash(eth: &Eth, material: Material<N>, step: ParentStep<N>) -> (next: BuildStep<
        N,
    >)
        ensures
            build_step_view(next) == in_parent_hash(material, parent_step_view(step)),
    {
        match step {
            Step::Ask(parent_search, query) => Step::Ask(
                BuildRichBlock::ParentHash { material, parent_search },
                query,
            ),
            Step::Done(parent_hash) => {
                let own = eth.rpc_compatible_hash(material.chain_hash);
                Self::after_own_hash(material, parent_hash, own)
            },
        }
    }

    /// Starts to search for the hashes that go with the block.
    pub fn start(eth: &Eth, material: Material<N>) -> (step: BuildStep<N>)
        ensures
            build_step_view(step) == build_start(eth@, material),
    {
        let parent = eth.rpc_compatible_parent_hash(material.chain_hash);
        Self::after_parent_hash(eth, material, parent)
    }

    /// Goes on with the node's reply.
    pub fn resume(self, eth: &Eth, reply: EthReply<N>) -> (step: BuildStep<N>)
        requires
            self@.awaits(reply),
        ensures
            build_step_view(step) == self@.next(eth@, reply),
    {
        match self {
            BuildRichBlock::ParentHash { material, parent_search } => {
                let parent = parent_search.resume(eth, reply);
                Self::after_parent_hash(eth, material, parent)
            },
            BuildRichBlock::Hash { material, parent_hash, search } => {
                let own = search.resume(eth, reply);
                Self::after_own_hash(material, parent_hash, own)
            },
        }
    }
}

/// The whole search for the hashes, on a node whose caches change.
pub open spec fn build_run<N: Node>(
    node: spec_fn(Seq<EthQueryView<N>>, EthQueryView<N>) -> EthReply<N>,
    past: Seq<EthQueryView<N>>,
    forced: Option<Map<H256, H256>>,
    step: BuildStepView<N>,
    fuel: nat,
) -> Run<EthQueryView<N>, RichBlockView<N>> {
    run_after(
        |state: BuildRichBlockView<N>, reply: EthReply<N>| state.next(forced, reply),
        |query: EthQueryView<N>| is_effect(query),
        node,
        past,
        step,
        fuel,
    )
}

/// The block for the client: the hash of its parent is the one that the search for it finds, and
/// its own is the one that is found next, with what the first search cached in the caches.
pub open spec fn built<N: Node>(
    node: spec_fn(Seq<EthQueryView<N>>, EthQueryView<N>) -> EthReply<N>,
    past: Seq<EthQueryView<N>>,
    forced: Option<Map<H256, H256>>,
    material: Material<N>,
) -> Run<EthQueryView<N>, RichBlockView<N>> {
    let parent = parent_hash_of(at(node, past), forced, material.chain_hash);
    let own = hash_of(at(node, past + parent.cached), forced, material.chain_hash);
    Run {
        effects: parent.cached + own.cached,
        outcome: Some(finished(material, own.hash, parent.hash)),
    }
}

/// A number of queries that the search for the hashes does not exceed.
pub open spec fn build_bound() -> nat {
    2 * hash_bound() + 1
}

/// The search for the hashes comes to its end, on a node of which the caches alone change
/// meanwhile, and yields the block that `built` says.
pub proof fn law_build_rich_block<N: Node>(
    node: spec_fn(Seq<EthQueryView<N>>, EthQueryView<N>) -> EthReply<N>,
    past: Seq<EthQueryView<N>>,
    forced: Option<Map<H256, H256>>,
    material: Material<N>,
    fuel: nat,
)
    requires
        only_caches_change(node),
        fuel >= build_bound(),
    ensures
        build_run(node, past, forced, build_start(forced, material), fuel) == built(
            node,
            past,
            forced,
            material,
        ),
{
    let chain_hash = material.chain_hash;
    let parent = parent_hash_of(at(node, past), forced, chain_hash);
    let then = past + parent.cached;
    let own = hash_of(at(node, then), forced, chain_hash);
    let parent_fuel = hash_bound() + 1;
    let own_fuel = (fuel - parent_fuel) as nat;
    law_rpc_compatible_parent_hash(node, past, forced, chain_hash, parent_fuel);
    law_rpc_compatible_hash(node, then, forced, chain_hash, own_fuel);
    let outer = |state: BuildRichBlockView<N>, reply: EthReply<N>| state.next(forced, reply);
    let effect = |query: EthQueryView<N>| is_effect(query);
    // The block's own hash, once that of the parent is known.
    let end = |hash: Option<H256>| -> BuildStepView<N>
        { Step::Done(finished(material, hash, parent.hash)) };
    let wrap_own = |search: RpcCompatibleHashView| -> BuildRichBlockView<N>
        { BuildRichBlockView::Hash { material, parent_hash: parent.hash, search } };
    let own_start = hash_start::<N>(chain_hash);
    law_run_after_embedded(
        |state: RpcCompatibleHashView, reply: EthReply<N>| state.next(forced, reply),
        outer,
        wrap_own,
        end,
        effect,
        node,
        then,
        own_start,
        own_fuel,
        0,
    );
    assert(embed(wrap_own, end, own_start) == in_own_hash(material, parent.hash, own_start));
    // The hash of the parent before it.
    let go_on = |hash: Option<H256>| in_own_hash::<N>(material, hash, own_start);
    let wrap_parent = |parent_search: RpcCompatibleParentHashView| -> BuildRichBlockView<N>
        { BuildRichBlockView::ParentHash { material, parent_search } };
    let start = parent_start::<N>(forced, chain_hash);
    law_run_after_embedded(
        |state: RpcCompatibleParentHashView, reply: EthReply<N>| state.next(forced, reply),
        outer,
        wrap_parent,
        go_on,
        effect,
        node,
        past,
        start,
        parent_fuel,
        own_fuel,
    );
    assert(embed(wrap_parent, go_on, start) == build_start(forced, material));
    let whole = build_run(node, past, forced, build_start(forced, material), fuel);
    assert(whole.effects =~= parent.cached + own.cached);
}

} // verus!

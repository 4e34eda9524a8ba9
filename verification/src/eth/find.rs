//! Looking up a block by a hash, be it the block's own or the one that Ethereum clients know.

use vstd::prelude::*;

use crate::eth::info::{
    info_bound, info_of, info_start, law_block_info_by_rpc_compatible_hash, InfoByRpcHash, InfoStep,
    InfoStepView,
};
use crate::eth::queries::{
    is_effect, only_caches_change, step_view, BlockInfo, Eth, EthQuery, EthQueryView, EthReply,
    RpcError, RpcErrorView,
};
use crate::machine::{at, embed, law_run_after_embedded, run_after, Run, Step};
use crate::node::Node;
use crate::primitives::H256;

verus! {

/// A lookup that waits for a reply.
pub enum FindInfo {
    /// For what is known of the block that has the hash by itself.
    Own { hash: H256 },
    /// For what is known of the block that Ethereum clients know by the hash.
    Shown { search: InfoByRpcHash },
}

/// Where a lookup stands.
pub type FindStep<N> = Step<FindInfo, EthQuery<N>, Result<BlockInfo<N>, RpcError<N>>>;

/// What a [`FindStep`] holds.
pub type FindStepView<N> = Step<FindInfo, EthQueryView<N>, Result<BlockInfo<N>, RpcErrorView<N>>>;

/// The lookup of the hash that Ethereum clients know as part of the lookup of either.
pub open spec fn in_shown<N: Node>(step: InfoStepView<N>) -> FindStepView<N> {
    match step {
        Step::Ask(search, query) => Step::Ask(FindInfo::Shown { search }, query),
        Step::Done(result) => Step::Done(result),
    }
}

/// The first step of the lookup.
pub open spec fn find_start<N: Node>(hash: H256) -> FindStepView<N> {
    Step::Ask(FindInfo::Own { hash }, EthQueryView::BlockInfoByEthBlockHash(hash))
}

impl FindInfo {
    /// The lookup waits for a reply of this kind.
    pub open spec fn awaits<N: Node>(self, reply: EthReply<N>) -> bool {
        match self {
            FindInfo::Own { .. } => reply is Info,
            FindInfo::Shown { search } => search.awaits(reply),
        }
    }

    /// The lookup under way is a valid one.
    pub open spec fn is_valid(self) -> bool {
        match self {
            FindInfo::Own { .. } => true,
            FindInfo::Shown { search } => search.is_valid(),
        }
    }

    /// Where the lookup stands after the reply.
    pub open spec fn next<N: Node>(self, reply: EthReply<N>) -> FindStepView<N> {
        match (self, reply) {
            (FindInfo::Own { hash }, EthReply::Info(result)) => match result {
                Ok(info) => if info.block is Some {
                    Step::Done(Ok(info))
                } else {
                    in_shown(info_start(hash))
                },
                Err(error) => Step::Done(Err(RpcErrorView::Node(error))),
            },
            (FindInfo::Shown { search }, reply) => in_shown(search.next(reply)),
            _ => arbitrary(),
        }
    }

    fn wrap<N: Node>(step: InfoStep<N>) -> (wrapped: FindStep<N>)
        requires
            step matches Step::Ask(state, _) ==> state.is_valid(),
        ensures
            step_view(wrapped) == in_shown(step_view(step)),
            wrapped matches Step::Ask(state, _) ==> state.is_valid(),
    {
        match step {
            Step::Ask(search, query) => Step::Ask(FindInfo::Shown { search }, query),
            Step::Done(result) => Step::Done(result),
        }
    }

    /// Starts to look up what is known of the block with the hash.
    pub fn start<N: Node>(hash: H256) -> (step: FindStep<N>)
        ensures
            step_view(step) == find_start::<N>(hash),
            step matches Step::Ask(state, _) && state.is_valid(),
    {
        Step::Ask(FindInfo::Own { hash }, EthQuery::BlockInfoByEthBlockHash(hash))
    }

    /// Goes on with the node's reply.
    pub fn resume<N: Node>(self, eth: &Eth, reply: EthReply<N>) -> (step: FindStep<N>)
        requires
            self.is_valid(),
            self.awaits(reply),
        ensures
            step_view(step) == self.next(reply),
            step matches Step::Ask(state, _) ==> state.is_valid(),
    {
        match (self, reply) {
            (FindInfo::Own { hash }, EthReply::Info(result)) => match result {
                Ok(info) => {
                    if info.block.is_none() {
                        Self::wrap(eth.block_info_by_rpc_compatible_hash(hash))
                    } else {
                        Step::Done(Ok(info))
                    }
                },
                Err(error) => Step::Done(Err(RpcError::Node(error))),
            },
            (FindInfo::Shown { search }, reply) => Self::wrap(search.resume(reply)),
            _ => vstd::pervasive::unreached(),
        }
    }
}

/// What is done to the caches, and what is found.
pub type FindRun<N> = Run<EthQueryView<N>, Result<BlockInfo<N>, RpcErrorView<N>>>;

/// The whole lookup, on a node whose caches change.
pub open spec fn find_run<N: Node>(
    node: spec_fn(Seq<EthQueryView<N>>, EthQueryView<N>) -> EthReply<N>,
    past: Seq<EthQueryView<N>>,
    step: FindStepView<N>,
    fuel: nat,
) -> FindRun<N> {
    run_after(
        |state: FindInfo, reply: EthReply<N>| state.next(reply),
        |query: EthQueryView<N>| is_effect(query),
        node,
        past,
        step,
        fuel,
    )
}

/// What is found under the hash: the block that has it by itself, or else the one that Ethereum
/// clients know by it.
pub open spec fn found_info<N: Node>(
    node: spec_fn(EthQueryView<N>) -> EthReply<N>,
    hash: H256,
) -> FindRun<N> {
    match node(EthQueryView::BlockInfoByEthBlockHash(hash))->Info_0 {
        Err(error) => Run {
            effects: Seq::empty(),
            outcome: Some(Err(RpcErrorView::Node(error))),
        },
        Ok(info) => if info.block is Some {
            Run { effects: Seq::empty(), outcome: Some(Ok(info)) }
        } else {
            info_of(node, hash)
        },
    }
}

/// A number of queries that the lookup does not exceed.
pub open spec fn find_bound<N: Node>(
    node: spec_fn(EthQueryView<N>) -> EthReply<N>,
    hash: H256,
) -> nat {
    1 + info_bound(node, hash)
}

/// The lookup comes to its end, and finds what `found_info` says for the node as it is at the
/// start, though the lookup changes the caches meanwhile.
pub proof fn law_find_info<N: Node>(
    node: spec_fn(Seq<EthQueryView<N>>, EthQueryView<N>) -> EthReply<N>,
    past: Seq<EthQueryView<N>>,
    hash: H256,
    fuel: nat,
)
    requires
        only_caches_change(node),
        fuel >= find_bound(at(node, past), hash),
    ensures
        find_run(node, past, find_start::<N>(hash), fuel) == found_info(at(node, past), hash),
        found_info(at(node, past), hash).outcome is Some,
{
    reveal_with_fuel(run_after, 2);
    let left = (fuel - 1) as nat;
    law_block_info_by_rpc_compatible_hash(node, past, hash, left);
    let outer = |state: FindInfo, reply: EthReply<N>| state.next(reply);
    let wrap = |search: InfoByRpcHash| FindInfo::Shown { search };
    let after = |result: Result<BlockInfo<N>, RpcErrorView<N>>| -> FindStepView<N>
        { Step::Done(result) };
    let start = info_start::<N>(hash);
    law_run_after_embedded(
        |state: InfoByRpcHash, reply: EthReply<N>| state.next(reply),
        outer,
        wrap,
        after,
        |query: EthQueryView<N>| is_effect(query),
        node,
        past,
        start,
        left,
        0,
    );
    assert(embed(wrap, after, start) == in_shown(start));
    let shown = info_of(at(node, past), hash);
    assert(shown.effects + Seq::<EthQueryView<N>>::empty() =~= shown.effects);
}

} // verus!

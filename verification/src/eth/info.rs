//! Looking up a block by the hash under which Ethereum clients know it.

use vstd::prelude::*;
use vstd::string::StringExecFns;

use crate::eth::queries::{
    answers_all, is_effect, node_result, only_caches_change, step_view, unknown_info, BlockInfo,
    Eth, EthQuery, EthQueryView, EthReply, RpcError, RpcErrorView,
};
use crate::machine::{at, law_change_does_not_show, run, run_after, Run, Step};
use crate::node::Node;
use crate::primitives::H256;

verus! {

/// A lookup that waits for a reply.
pub enum InfoByRpcHash {
    /// For the chain block in the cache.
    CachedChainHash { hash: H256 },
    /// For whether the chain block in the cache is on the canonical chain.
    CachedCanon { hash: H256, chain_hash: H256 },
    /// For what is known of the block in the cache.
    CachedInfo,
    /// For the chain blocks in the mapping.
    Mapped { hash: H256 },
    /// For whether the candidate at the index is on the canonical chain.
    Canon { hash: H256, candidates: Vec<H256>, index: usize },
    /// For the candidate at the index to be cached.
    Cached { hash: H256, candidates: Vec<H256>, index: usize },
    /// For what is known of the block at the index.
    Info { hash: H256, candidates: Vec<H256>, index: usize },
}

/// Where a lookup stands.
pub type InfoStep<N> = Step<InfoByRpcHash, EthQuery<N>, Result<BlockInfo<N>, RpcError<N>>>;

/// What an [`InfoStep`] holds.
pub type InfoStepView<N> = Step<
    InfoByRpcHash,
    EthQueryView<N>,
    Result<BlockInfo<N>, RpcErrorView<N>>,
>;

/// Asks for the chain blocks in the mapping.
pub open spec fn ask_mapped<N: Node>(hash: H256) -> InfoStepView<N> {
    Step::Ask(InfoByRpcHash::Mapped { hash }, EthQueryView::MappedChainHashes(hash))
}

/// Turns to the candidate at the index, if there is one.
pub open spec fn turn_to<N: Node>(
    hash: H256,
    candidates: Vec<H256>,
    index: usize,
) -> InfoStepView<N> {
    if index < candidates@.len() {
        Step::Ask(
            InfoByRpcHash::Canon { hash, candidates, index },
            EthQueryView::IsCanon(candidates@[index as int]),
        )
    } else {
        Step::Done(Ok(unknown_info()))
    }
}

/// The message for a mapping that could not be read.
pub open spec fn mapping_message(error: Seq<char>) -> Seq<char> {
    "fetch aux store failed: "@ + error
}

impl InfoByRpcHash {
    /// The lookup waits for a reply of this kind.
    pub open spec fn awaits<N: Node>(self, reply: EthReply<N>) -> bool {
        match self {
            InfoByRpcHash::CachedChainHash { .. } => reply is CachedHash,
            InfoByRpcHash::CachedCanon { .. } => reply is Canon,
            InfoByRpcHash::CachedInfo => reply is Info,
            InfoByRpcHash::Mapped { .. } => reply is MappedChainHashes,
            InfoByRpcHash::Canon { .. } => reply is Canon,
            InfoByRpcHash::Cached { .. } => reply is Cached,
            InfoByRpcHash::Info { .. } => reply is Info,
        }
    }

    /// The index is one of a candidate.
    pub open spec fn is_valid(self) -> bool {
        match self {
            InfoByRpcHash::Canon { candidates, index, .. } => index < candidates@.len(),
            InfoByRpcHash::Cached { candidates, index, .. } => index < candidates@.len(),
            InfoByRpcHash::Info { candidates, index, .. } => index < candidates@.len(),
            _ => true,
        }
    }

    /// Where the lookup stands after the reply.
    pub open spec fn next<N: Node>(self, reply: EthReply<N>) -> InfoStepView<N> {
        match (self, reply) {
            (
                InfoByRpcHash::CachedChainHash { hash },
                EthReply::CachedHash(chain_hash),
            ) => match chain_hash {
                Some(chain_hash) => Step::Ask(
                    InfoByRpcHash::CachedCanon { hash, chain_hash },
                    EthQueryView::IsCanon(chain_hash),
                ),
                None => ask_mapped(hash),
            },
            (
                InfoByRpcHash::CachedCanon { hash, chain_hash },
                EthReply::Canon(is_canon),
            ) => if is_canon {
                Step::Ask(
                    InfoByRpcHash::CachedInfo,
                    EthQueryView::BlockInfoByChainHash(chain_hash),
                )
            } else {
                ask_mapped(hash)
            },
            (InfoByRpcHash::CachedInfo, EthReply::Info(result)) => Step::Done(node_result(result)),
            (InfoByRpcHash::Mapped { hash }, EthReply::MappedChainHashes(reply)) => match reply {
                Ok(Some(candidates)) => turn_to(hash, candidates, 0),
                Ok(None) => Step::Done(Ok(unknown_info())),
                Err(error) => Step::Done(Err(RpcErrorView::Internal(mapping_message(error@)))),
            },
            (
                InfoByRpcHash::Canon { hash, candidates, index },
                EthReply::Canon(is_canon),
            ) => if is_canon {
                Step::Ask(
                    InfoByRpcHash::Cached { hash, candidates, index },
                    EthQueryView::CacheHash(candidates@[index as int], hash),
                )
            } else {
                turn_to(hash, candidates, (index + 1) as usize)
            },
            (InfoByRpcHash::Cached { hash, candidates, index }, EthReply::Cached) => Step::Ask(
                InfoByRpcHash::Info { hash, candidates, index },
                EthQueryView::BlockInfoByChainHash(candidates@[index as int]),
            ),
            (
                InfoByRpcHash::Info { hash, candidates, index },
                EthReply::Info(result),
            ) => match result {
                Ok(info) => if info.block is Some {
                    Step::Done(Ok(info))
                } else {
                    turn_to(hash, candidates, (index + 1) as usize)
                },
                Err(error) => Step::Done(Err(RpcErrorView::Node(error))),
            },
            _ => arbitrary(),
        }
    }

    fn try_candidate<N: Node>(hash: H256, candidates: Vec<H256>, index: usize) -> (step: InfoStep<
        N,
    >)
        ensures
            step_view(step) == turn_to::<N>(hash, candidates, index),
            step matches Step::Ask(state, _) ==> state.is_valid(),
    {
        if index < candidates.len() {
            let candidate = candidates[index];
            Step::Ask(
                InfoByRpcHash::Canon { hash, candidates, index },
                EthQuery::IsCanon(candidate),
            )
        } else {
            Step::Done(Ok(BlockInfo::unknown()))
        }
    }

    /// Goes on with the node's reply.
    pub fn resume<N: Node>(self, reply: EthReply<N>) -> (step: InfoStep<N>)
        requires
            self.is_valid(),
            self.awaits(reply),
        ensures
            step_view(step) == self.next(reply),
            step matches Step::Ask(state, _) ==> state.is_valid(),
    {
        match (self, reply) {
            (InfoByRpcHash::CachedChainHash { hash }, EthReply::CachedHash(chain_hash)) => {
                match chain_hash {
                    Some(chain_hash) => Step::Ask(
                        InfoByRpcHash::CachedCanon { hash, chain_hash },
                        EthQuery::IsCanon(chain_hash),
                    ),
                    None => Step::Ask(
                        InfoByRpcHash::Mapped { hash },
                        EthQuery::MappedChainHashes(hash),
                    ),
                }
            },
            (InfoByRpcHash::CachedCanon { hash, chain_hash }, EthReply::Canon(is_canon)) => {
                if is_canon {
                    Step::Ask(
                        InfoByRpcHash::CachedInfo,
                        EthQuery::BlockInfoByChainHash(chain_hash),
                    )
                } else {
                    Step::Ask(
                        InfoByRpcHash::Mapped { hash },
                        EthQuery::MappedChainHashes(hash),
                    )
                }
            },
            (InfoByRpcHash::CachedInfo, EthReply::Info(result)) => match result {
                Ok(info) => Step::Done(Ok(info)),
                Err(error) => Step::Done(Err(RpcError::Node(error))),
            },
            (InfoByRpcHash::Mapped { hash }, EthReply::MappedChainHashes(reply)) => match reply {
                Ok(Some(candidates)) => Self::try_candidate(hash, candidates, 0),
                Ok(None) => Step::Done(Ok(BlockInfo::unknown())),
                Err(error) => Step::Done(
                    Err(
                        RpcError::Internal(
                            "fetch aux store failed: ".to_owned().concat(error.as_str()),
                        ),
                    ),
                ),
            },
            (InfoByRpcHash::Canon { hash, candidates, index }, EthReply::Canon(is_canon)) => {
                if is_canon {
                    let candidate = candidates[index];
                    Step::Ask(
                        InfoByRpcHash::Cached { hash, candidates, index },
                        EthQuery::CacheHash(candidate, hash),
                    )
                } else {
                    assert(candidates.len() == candidates@.len());
                    Self::try_candidate(hash, candidates, index + 1)
                }
            },
            (InfoByRpcHash::Cached { hash, candidates, index }, EthReply::Cached) => {
                let candidate = candidates[index];
                Step::Ask(
                    InfoByRpcHash::Info { hash, candidates, index },
                    EthQuery::BlockInfoByChainHash(candidate),
                )
            },
            (InfoByRpcHash::Info { hash, candidates, index }, EthReply::Info(result)) => {
                match result {
                    Ok(info) => {
                        if info.block.is_some() {
                            Step::Done(Ok(info))
                        } else {
                            assert(candidates.len() == candidates@.len());
                            Self::try_candidate(hash, candidates, index + 1)
                        }
                    },
                    Err(error) => Step::Done(Err(RpcError::Node(error))),
                }
            },
            _ => vstd::pervasive::unreached(),
        }
    }
}

/// The first step of the lookup.
pub open spec fn info_start<N: Node>(hash: H256) -> InfoStepView<N> {
    Step::Ask(InfoByRpcHash::CachedChainHash { hash }, EthQueryView::CachedChainHash(hash))
}

impl Eth {
    /// Starts to look up what is known of the block that Ethereum clients know by the hash.
    pub fn block_info_by_rpc_compatible_hash<N: Node>(&self, hash: H256) -> (step: InfoStep<N>)
        ensures
            step_view(step) == info_start::<N>(hash),
            step matches Step::Ask(state, _) ==> state.is_valid(),
    {
        Step::Ask(InfoByRpcHash::CachedChainHash { hash }, EthQuery::CachedChainHash(hash))
    }
}

/// What is done to the caches, and what is found.
pub type InfoRun<N> = Run<EthQueryView<N>, Result<BlockInfo<N>, RpcErrorView<N>>>;

/// The whole lookup.
pub open spec fn info_run<N: Node>(
    node: spec_fn(EthQueryView<N>) -> EthReply<N>,
    step: InfoStepView<N>,
    fuel: nat,
) -> InfoRun<N> {
    run(
        |state: InfoByRpcHash, reply: EthReply<N>| state.next(reply),
        |query: EthQueryView<N>| is_effect(query),
        node,
        step,
        fuel,
    )
}

/// The chain block is on the canonical chain.
pub open spec fn is_canon<N: Node>(
    node: spec_fn(EthQueryView<N>) -> EthReply<N>,
    chain_hash: H256,
) -> bool {
    node(EthQueryView::IsCanon(chain_hash))->Canon_0
}

/// What is known of the Ethereum block at the chain block.
pub open spec fn info_at<N: Node>(
    node: spec_fn(EthQueryView<N>) -> EthReply<N>,
    chain_hash: H256,
) -> Result<BlockInfo<N>, RpcErrorView<N>> {
    node_result::<N, BlockInfo<N>>(
        node(EthQueryView::BlockInfoByChainHash(chain_hash))->Info_0,
    )
}

/// What is found among the candidates from the index on: the first on the canonical chain of which
/// a block is known. Every candidate on the canonical chain that is tried is cached.
pub open spec fn first_known<N: Node>(
    node: spec_fn(EthQueryView<N>) -> EthReply<N>,
    hash: H256,
    candidates: Seq<H256>,
    index: nat,
) -> InfoRun<N>
    decreases candidates.len() - index,
{
    if index >= candidates.len() {
        Run { effects: Seq::empty(), outcome: Some(Ok(unknown_info())) }
    } else {
        let candidate = candidates[index as int];
        let rest = first_known(node, hash, candidates, index + 1);
        let cached = seq![EthQueryView::<N>::CacheHash(candidate, hash)];
        if !is_canon(node, candidate) {
            rest
        } else {
            match info_at(node, candidate) {
                Ok(info) => if info.block is Some {
                    Run { effects: cached, outcome: Some(Ok(info)) }
                } else {
                    Run { effects: cached + rest.effects, outcome: rest.outcome }
                },
                Err(error) => Run { effects: cached, outcome: Some(Err(error)) },
            }
        }
    }
}

/// What is found under the hash: what is known of the block in the cache, if that is on the
/// canonical chain; or else what is found among those in the mapping.
pub open spec fn info_of<N: Node>(
    node: spec_fn(EthQueryView<N>) -> EthReply<N>,
    hash: H256,
) -> InfoRun<N> {
    let chain_hash = node(EthQueryView::CachedChainHash(hash))->CachedHash_0;
    if chain_hash is Some && is_canon(node, chain_hash->0) {
        Run { effects: Seq::empty(), outcome: Some(info_at(node, chain_hash->0)) }
    } else {
        match node(EthQueryView::MappedChainHashes(hash))->MappedChainHashes_0 {
            Ok(Some(candidates)) => first_known(node, hash, candidates@, 0),
            Ok(None) => Run { effects: Seq::empty(), outcome: Some(Ok(unknown_info())) },
            Err(error) => Run {
                effects: Seq::empty(),
                outcome: Some(Err(RpcErrorView::Internal(mapping_message(error@)))),
            },
        }
    }
}

/// A number of queries that the lookup does not exceed.
pub open spec fn info_bound<N: Node>(
    node: spec_fn(EthQueryView<N>) -> EthReply<N>,
    hash: H256,
) -> nat {
    match node(EthQueryView::MappedChainHashes(hash))->MappedChainHashes_0 {
        Ok(Some(candidates)) => 3 + 3 * candidates@.len(),
        _ => 3,
    }
}

proof fn lemma_turn_to<N: Node>(
    node: spec_fn(EthQueryView<N>) -> EthReply<N>,
    hash: H256,
    candidates: Vec<H256>,
    index: usize,
    fuel: nat,
)
    requires
        answers_all(node),
        index <= candidates@.len(),
        fuel >= 3 * (candidates@.len() - index),
    ensures
        info_run(node, turn_to::<N>(hash, candidates, index), fuel) == first_known(
            node,
            hash,
            candidates@,
            index as nat,
        ),
        first_known(node, hash, candidates@, index as nat).outcome is Some,
    decreases candidates@.len() - index,
{
    reveal_with_fuel(run, 4);
    if index < candidates@.len() {
        assert(candidates.len() == candidates@.len());
        let next = (index + 1) as usize;
        lemma_turn_to(node, hash, candidates, next, (fuel - 1) as nat);
        lemma_turn_to(node, hash, candidates, next, (fuel - 3) as nat);
        let cached = seq![EthQueryView::<N>::CacheHash(candidates@[index as int], hash)];
        assert(cached + Seq::<EthQueryView<N>>::empty() =~= cached);
    }
}

/// What the lookup amounts to on a node that stays as it is.
proof fn lemma_steady_lookup<N: Node>(
    node: spec_fn(EthQueryView<N>) -> EthReply<N>,
    hash: H256,
    fuel: nat,
)
    requires
        answers_all(node),
        fuel >= info_bound(node, hash),
    ensures
        info_run(node, info_start::<N>(hash), fuel) == info_of(node, hash),
        info_of(node, hash).outcome is Some,
{
    reveal_with_fuel(run, 4);
    if let Ok(Some(candidates)) = node(
        EthQueryView::MappedChainHashes(hash),
    )->MappedChainHashes_0 {
        lemma_turn_to(node, hash, candidates, 0, (fuel - 2) as nat);
        lemma_turn_to(node, hash, candidates, 0, (fuel - 3) as nat);
    }
}

/// The lookup asks the query in a state before it has cached anything.
spec fn is_early<N: Node>(state: InfoByRpcHash, query: EthQueryView<N>) -> bool {
    match state {
        InfoByRpcHash::CachedChainHash { .. } => query is CachedChainHash,
        InfoByRpcHash::CachedCanon { .. } => query is IsCanon,
        InfoByRpcHash::CachedInfo => query is BlockInfoByChainHash,
        InfoByRpcHash::Mapped { .. } => query is MappedChainHashes,
        _ => false,
    }
}

/// The lookup asks the query in a state in which it no longer reads the cache.
spec fn is_late<N: Node>(state: InfoByRpcHash, query: EthQueryView<N>) -> bool {
    match state {
        InfoByRpcHash::Canon { .. } => query is IsCanon,
        InfoByRpcHash::Cached { .. } => query is CacheHash,
        InfoByRpcHash::Info { .. } => query is BlockInfoByChainHash,
        _ => false,
    }
}

/// The whole lookup, on a node whose caches change.
pub open spec fn info_run_after<N: Node>(
    node: spec_fn(Seq<EthQueryView<N>>, EthQueryView<N>) -> EthReply<N>,
    past: Seq<EthQueryView<N>>,
    step: InfoStepView<N>,
    fuel: nat,
) -> InfoRun<N> {
    run_after(
        |state: InfoByRpcHash, reply: EthReply<N>| state.next(reply),
        |query: EthQueryView<N>| is_effect(query),
        node,
        past,
        step,
        fuel,
    )
}

/// The lookup comes to its end, and finds what `info_of` says for the node as it is at the start,
/// though the lookup changes the caches meanwhile.
pub proof fn law_block_info_by_rpc_compatible_hash<N: Node>(
    node: spec_fn(Seq<EthQueryView<N>>, EthQueryView<N>) -> EthReply<N>,
    past: Seq<EthQueryView<N>>,
    hash: H256,
    fuel: nat,
)
    requires
        only_caches_change(node),
        fuel >= info_bound(at(node, past), hash),
    ensures
        info_run_after(node, past, info_start::<N>(hash), fuel) == info_of(at(node, past), hash),
        info_of(at(node, past), hash).outcome is Some,
{
    lemma_steady_lookup(at(node, past), hash, fuel);
    law_change_does_not_show(
        |state: InfoByRpcHash, reply: EthReply<N>| state.next(reply),
        |query: EthQueryView<N>| is_effect(query),
        node,
        |state: InfoByRpcHash, query: EthQueryView<N>| is_early(state, query),
        |state: InfoByRpcHash, query: EthQueryView<N>| is_late(state, query),
        past,
        past,
        info_start::<N>(hash),
        fuel,
    );
}

/// A block that is found is on the canonical chain: what is known comes from a chain block that
/// is, and that the cache or the mapping holds for the hash.
pub proof fn law_found_block_is_canonical<N: Node>(
    node: spec_fn(EthQueryView<N>) -> EthReply<N>,
    hash: H256,
)
    requires
        info_of(node, hash).outcome matches Some(Ok(info)) && info.block is Some,
    ensures
        exists|chain_hash: H256|
            {
                &&& #[trigger] is_canon(node, chain_hash)
                &&& info_of(node, hash).outcome == Some(info_at(node, chain_hash))
                &&& node(EthQueryView::CachedChainHash(hash))->CachedHash_0 == Some(chain_hash) || (
                node(EthQueryView::MappedChainHashes(hash))->MappedChainHashes_0 matches Ok(
                    Some(candidates),
                ) && candidates@.contains(chain_hash))
            },
{
    let chain_hash = node(EthQueryView::CachedChainHash(hash))->CachedHash_0;
    if chain_hash is Some && is_canon(node, chain_hash->0) {
    } else {
        if let Ok(Some(candidates)) = node(
            EthQueryView::MappedChainHashes(hash),
        )->MappedChainHashes_0 {
            let i = lemma_first_known_is_canonical(node, hash, candidates@, 0);
            assert(is_canon(node, candidates@[i]));
        }
    }
}

proof fn lemma_first_known_is_canonical<N: Node>(
    node: spec_fn(EthQueryView<N>) -> EthReply<N>,
    hash: H256,
    candidates: Seq<H256>,
    index: nat,
) -> (i: int)
    requires
        first_known(node, hash, candidates, index).outcome matches Some(Ok(info)) && info.block
            is Some,
    ensures
        0 <= i < candidates.len(),
        is_canon(node, candidates[i]),
        first_known(node, hash, candidates, index).outcome == Some(info_at(node, candidates[i])),
    decreases candidates.len() - index,
{
    if index < candidates.len() {
        let candidate = candidates[index as int];
        if is_canon(node, candidate) && (info_at(node, candidate) matches Ok(info) && info.block
            is Some) {
            index as int
        } else {
            lemma_first_known_is_canonical(node, hash, candidates, index + 1)
        }
    } else {
        0
    }
}

} // verus!

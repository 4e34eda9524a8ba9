//! The hashes under which Ethereum clients know a chain block and its parent.

use vstd::prelude::*;

use crate::block::Block;
use crate::eth::queries::{forced_parent, Eth, EthQuery, EthQueryView, EthReply};
use crate::hashing::{rpc_compatible_block_hash, rpc_compatible_hash_of};
use crate::machine::Step;
use crate::node::Node;
use crate::primitives::H256;

verus! {

/// How many blocks in a row may have to be gone through for the hash of one.
pub const RPC_COMPATIBLE_HASH_DERIVATION_LIMIT: usize = 8192;

/// A chain block whose hash is still to be worked out, and the parent hash forced for it.
pub type Pending = (H256, Option<H256>);

/// The search for the hash of a chain block, where it waits for a reply.
pub enum RpcCompatibleHash {
    /// For the hash in the mapping.
    Stored { hash: H256 },
    /// For the hash in the mapping, `compatible`, to be cached.
    StoredCached { compatible: H256 },
    /// For the hash in the cache.
    Cached { cursor: H256, stack: Vec<Pending> },
    /// For the place in the chain.
    Position { cursor: H256, stack: Vec<Pending> },
    /// For the Ethereum block of the lowest block, `ancestor`, whose hash is still missing.
    Block { ancestor: H256, parent_hash: Option<H256>, stack: Vec<Pending> },
    /// For the hash that was worked out, `compatible`, to be cached.
    DerivedCached { compatible: H256, stack: Vec<Pending> },
}

/// What a [`RpcCompatibleHash`] holds.
pub enum RpcCompatibleHashView {
    Stored { hash: H256 },
    StoredCached { compatible: H256 },
    Cached { cursor: H256, stack: Seq<Pending> },
    Position { cursor: H256, stack: Seq<Pending> },
    Block { ancestor: H256, parent_hash: Option<H256>, stack: Seq<Pending> },
    DerivedCached { compatible: H256, stack: Seq<Pending> },
}

impl View for RpcCompatibleHash {
    type V = RpcCompatibleHashView;

    open spec fn view(&self) -> RpcCompatibleHashView {
        match *self {
            RpcCompatibleHash::Stored { hash } => RpcCompatibleHashView::Stored { hash },
            RpcCompatibleHash::StoredCached { compatible } => RpcCompatibleHashView::StoredCached {
                compatible,
            },
            RpcCompatibleHash::Cached { cursor, stack } => RpcCompatibleHashView::Cached {
                cursor,
                stack: stack@,
            },
            RpcCompatibleHash::Position { cursor, stack } => RpcCompatibleHashView::Position {
                cursor,
                stack: stack@,
            },
            RpcCompatibleHash::Block { ancestor, parent_hash, stack } => {
                RpcCompatibleHashView::Block { ancestor, parent_hash, stack: stack@ }
            },
            RpcCompatibleHash::DerivedCached { compatible, stack } => {
                RpcCompatibleHashView::DerivedCached { compatible, stack: stack@ }
            },
        }
    }
}

/// Where the search stands.
pub type HashStep<N> = Step<RpcCompatibleHash, EthQuery<N>, Option<H256>>;

/// What a [`HashStep`] holds.
pub type HashStepView<N> = Step<RpcCompatibleHashView, EthQueryView<N>, Option<H256>>;

/// What a [`HashStep`] holds.
pub open spec fn hash_step_view<N: Node>(step: HashStep<N>) -> HashStepView<N> {
    match step {
        Step::Ask(state, query) => Step::Ask(state@, query@),
        Step::Done(hash) => Step::Done(hash),
    }
}

/// Looks for the hash of `cursor`, above which the blocks in `stack` wait.
pub open spec fn descend<N: Node>(cursor: H256, stack: Seq<Pending>) -> HashStepView<N> {
    Step::Ask(
        RpcCompatibleHashView::Cached { cursor, stack },
        EthQueryView::CachedHash(cursor),
    )
}

/// Works out the hash of the block on top of the stack, whose parent has the given hash.
pub open spec fn ascend<N: Node>(stack: Seq<Pending>, parent_hash: Option<H256>) -> HashStepView<
    N,
> {
    if stack.len() == 0 {
        Step::Done(parent_hash)
    } else {
        let (ancestor, forced) = stack.last();
        Step::Ask(
            RpcCompatibleHashView::Block {
                ancestor,
                parent_hash: if forced is Some {
                    forced
                } else {
                    parent_hash
                },
                stack: stack.drop_last(),
            },
            EthQueryView::CurrentBlock(ancestor),
        )
    }
}

impl RpcCompatibleHashView {
    /// The search waits for a reply of this kind.
    pub open spec fn awaits<N: Node>(self, reply: EthReply<N>) -> bool {
        match self {
            RpcCompatibleHashView::Stored { .. } => reply is StoredHash,
            RpcCompatibleHashView::StoredCached { .. } => reply is Cached,
            RpcCompatibleHashView::Cached { .. } => reply is CachedHash,
            RpcCompatibleHashView::Position { .. } => reply is Position,
            RpcCompatibleHashView::Block { .. } => reply is Block,
            RpcCompatibleHashView::DerivedCached { .. } => reply is Cached,
        }
    }

    /// Where the search stands after the reply, the given parent hashes being forced.
    pub open spec fn next<N: Node>(
        self,
        forced: Option<Map<H256, H256>>,
        reply: EthReply<N>,
    ) -> HashStepView<N> {
        match (self, reply) {
            (RpcCompatibleHashView::Stored { hash }, EthReply::StoredHash(reply)) => match reply {
                Ok(Some(compatible)) => Step::Ask(
                    RpcCompatibleHashView::StoredCached { compatible },
                    EthQueryView::CacheHash(hash, compatible),
                ),
                _ => descend(hash, Seq::empty()),
            },
            (RpcCompatibleHashView::StoredCached { compatible }, EthReply::Cached) => Step::Done(
                Some(compatible),
            ),
            (
                RpcCompatibleHashView::Cached { cursor, stack },
                EthReply::CachedHash(cached),
            ) => match cached {
                Some(compatible) => ascend(stack, Some(compatible)),
                None => Step::Ask(
                    RpcCompatibleHashView::Position { cursor, stack },
                    EthQueryView::Position(cursor),
                ),
            },
            (
                RpcCompatibleHashView::Position { cursor, stack },
                EthReply::Position(reply),
            ) => match reply {
                Ok(Some(position)) => {
                    let parent = forced_parent(forced, cursor);
                    let stack = stack.push((cursor, parent));
                    if stack.len() > RPC_COMPATIBLE_HASH_DERIVATION_LIMIT {
                        Step::Done(None)
                    } else if position.number@ == 0 {
                        ascend(stack, None)
                    } else if parent is Some {
                        ascend(stack, parent)
                    } else {
                        descend(position.parent_hash, stack)
                    }
                },
                _ => Step::Done(None),
            },
            (
                RpcCompatibleHashView::Block { ancestor, parent_hash, stack },
                EthReply::Block(block),
            ) => match block {
                Some(block) => {
                    let compatible = rpc_compatible_hash_of(block.header@, parent_hash);
                    Step::Ask(
                        RpcCompatibleHashView::DerivedCached { compatible, stack },
                        EthQueryView::CacheHash(ancestor, compatible),
                    )
                },
                None => Step::Done(None),
            },
            (
                RpcCompatibleHashView::DerivedCached { compatible, stack },
                EthReply::Cached,
            ) => ascend(stack, Some(compatible)),
            _ => arbitrary(),
        }
    }
}

fn climb<N: Node>(stack: Vec<Pending>, parent_hash: Option<H256>) -> (step: HashStep<N>)
    ensures
        hash_step_view(step) == ascend::<N>(stack@, parent_hash),
{
    let mut stack = stack;
    match stack.pop() {
        Some((ancestor, forced)) => {
            let parent_hash = if forced.is_some() {
                forced
            } else {
                parent_hash
            };
            Step::Ask(
                RpcCompatibleHash::Block { ancestor, parent_hash, stack },
                EthQuery::CurrentBlock(ancestor),
            )
        },
        None => Step::Done(parent_hash),
    }
}

impl RpcCompatibleHash {
    /// Goes on with the node's reply.
    pub fn resume<N: Node>(self, eth: &Eth, reply: EthReply<N>) -> (step: HashStep<N>)
        requires
            self@.awaits(reply),
        ensures
            hash_step_view(step) == self@.next(eth@, reply),
    {
        match (self, reply) {
            (RpcCompatibleHash::Stored { hash }, EthReply::StoredHash(reply)) => match reply {
                Ok(Some(compatible)) => Step::Ask(
                    RpcCompatibleHash::StoredCached { compatible },
                    EthQuery::CacheHash(hash, compatible),
                ),
                _ => Step::Ask(
                    RpcCompatibleHash::Cached { cursor: hash, stack: Vec::new() },
                    EthQuery::CachedHash(hash),
                ),
            },
            (RpcCompatibleHash::StoredCached { compatible }, EthReply::Cached) => Step::Done(
                Some(compatible),
            ),
            (RpcCompatibleHash::Cached { cursor, stack }, EthReply::CachedHash(cached)) => {
                match cached {
                    Some(compatible) => climb(stack, Some(compatible)),
                    None => Step::Ask(
                        RpcCompatibleHash::Position { cursor, stack },
                        EthQuery::Position(cursor),
                    ),
                }
            },
            (RpcCompatibleHash::Position { cursor, stack }, EthReply::Position(reply)) => {
                match reply {
                    Ok(Some(position)) => {
                        let forced = eth.forced_parent_hash(&cursor);
                        let mut stack = stack;
                        stack.push((cursor, forced));
                        if stack.len() > RPC_COMPATIBLE_HASH_DERIVATION_LIMIT {
                            Step::Done(None)
                        } else if position.number.is_zero() {
                            climb(stack, None)
                        } else if forced.is_some() {
                            climb(stack, forced)
                        } else {
                            Step::Ask(
                                RpcCompatibleHash::Cached { cursor: position.parent_hash, stack },
                                EthQuery::CachedHash(position.parent_hash),
                            )
                        }
                    },
                    _ => Step::Done(None),
                }
            },
            (RpcCompatibleHash::Block { ancestor, parent_hash, stack }, EthReply::Block(block)) => {
                match block {
                    Some(block) => {
                        let compatible = rpc_compatible_block_hash(&block, parent_hash);
                        Step::Ask(
                            RpcCompatibleHash::DerivedCached { compatible, stack },
                            EthQuery::CacheHash(ancestor, compatible),
                        )
                    },
                    None => Step::Done(None),
                }
            },
            (RpcCompatibleHash::DerivedCached { compatible, stack }, EthReply::Cached) => climb(
                stack,
                Some(compatible),
            ),
            _ => vstd::pervasive::unreached(),
        }
    }
}

/// The first step of the search for the hash of a chain block.
pub open spec fn hash_start<N: Node>(hash: H256) -> HashStepView<N> {
    Step::Ask(RpcCompatibleHashView::Stored { hash }, EthQueryView::StoredHash(hash))
}

/// The search for the hash of a parent, where it waits for a reply.
pub enum RpcCompatibleParentHash {
    /// For the place in the chain.
    Position,
    /// For the hash of the parent, once it is known which block that is.
    Parent { search: RpcCompatibleHash },
}

/// What a [`RpcCompatibleParentHash`] holds.
pub enum RpcCompatibleParentHashView {
    Position,
    Parent { search: RpcCompatibleHashView },
}

impl View for RpcCompatibleParentHash {
    type V = RpcCompatibleParentHashView;

    open spec fn view(&self) -> RpcCompatibleParentHashView {
        match *self {
            RpcCompatibleParentHash::Position => RpcCompatibleParentHashView::Position,
            RpcCompatibleParentHash::Parent { search } => RpcCompatibleParentHashView::Parent {
                search: search@,
            },
        }
    }
}

/// Where the search for the hash of a parent stands.
pub type ParentStep<N> = Step<RpcCompatibleParentHash, EthQuery<N>, Option<H256>>;

/// What a [`ParentStep`] holds.
pub type ParentStepView<N> = Step<RpcCompatibleParentHashView, EthQueryView<N>, Option<H256>>;

/// What a [`ParentStep`] holds.
pub open spec fn parent_step_view<N: Node>(step: ParentStep<N>) -> ParentStepView<N> {
    match step {
        Step::Ask(state, query) => Step::Ask(state@, query@),
        Step::Done(hash) => Step::Done(hash),
    }
}

/// The search for a hash as the search for that of a parent.
pub open spec fn in_parent<N: Node>(step: HashStepView<N>) -> ParentStepView<N> {
    match step {
        Step::Ask(search, query) => Step::Ask(
            RpcCompatibleParentHashView::Parent { search },
            query,
        ),
        Step::Done(hash) => Step::Done(hash),
    }
}

/// The first step of the search for the hash of a parent.
pub open spec fn parent_start<N: Node>(
    forced: Option<Map<H256, H256>>,
    hash: H256,
) -> ParentStepView<N> {
    match forced_parent(forced, hash) {
        Some(parent_hash) => Step::Done(Some(parent_hash)),
        None => Step::Ask(RpcCompatibleParentHashView::Position, EthQueryView::Position(hash)),
    }
}

impl RpcCompatibleParentHashView {
    /// The search waits for a reply of this kind.
    pub open spec fn awaits<N: Node>(self, reply: EthReply<N>) -> bool {
        match self {
            RpcCompatibleParentHashView::Position => reply is Position,
            RpcCompatibleParentHashView::Parent { search } => search.awaits(reply),
        }
    }

    /// Where the search stands after the reply, the given parent hashes being forced.
    pub open spec fn next<N: Node>(
        self,
        forced: Option<Map<H256, H256>>,
        reply: EthReply<N>,
    ) -> ParentStepView<N> {
        match (self, reply) {
            (RpcCompatibleParentHashView::Position, EthReply::Position(reply)) => match reply {
                Ok(Some(position)) => if position.number@ == 0 {
                    Step::Done(None)
                } else {
                    in_parent(hash_start(position.parent_hash))
                },
                _ => Step::Done(None),
            },
            (RpcCompatibleParentHashView::Parent { search }, reply) => in_parent(
                search.next(forced, reply),
            ),
            _ => arbitrary(),
        }
    }
}

impl RpcCompatibleParentHash {
    fn wrap<N: Node>(step: HashStep<N>) -> (wrapped: ParentStep<N>)
        ensures
            parent_step_view(wrapped) == in_parent(hash_step_view(step)),
    {
        match step {
            Step::Ask(search, query) => Step::Ask(
                RpcCompatibleParentHash::Parent { search },
                query,
            ),
            Step::Done(hash) => Step::Done(hash),
        }
    }

    /// Goes on with the node's reply.
    pub fn resume<N: Node>(self, eth: &Eth, reply: EthReply<N>) -> (step: ParentStep<N>)
        requires
            self@.awaits(reply),
        ensures
            parent_step_view(step) == self@.next(eth@, reply),
    {
        match (self, reply) {
            (RpcCompatibleParentHash::Position, EthReply::Position(reply)) => match reply {
                Ok(Some(position)) => {
                    if position.number.is_zero() {
                        Step::Done(None)
                    } else {
                        Self::wrap(eth.rpc_compatible_hash(position.parent_hash))
                    }
                },
                _ => Step::Done(None),
            },
            (RpcCompatibleParentHash::Parent { search }, reply) => Self::wrap(
                search.resume(eth, reply),
            ),
            _ => vstd::pervasive::unreached(),
        }
    }
}

impl Eth {
    /// Starts to search for the hash under which Ethereum clients know the chain block.
    pub fn rpc_compatible_hash<N: Node>(&self, substrate_hash: H256) -> (step: HashStep<N>)
        ensures
            hash_step_view(step) == hash_start::<N>(substrate_hash),
    {
        Step::Ask(
            RpcCompatibleHash::Stored { hash: substrate_hash },
            EthQuery::StoredHash(substrate_hash),
        )
    }

    /// Starts to search for the hash under which Ethereum clients know the parent of the chain
    /// block.
    pub fn rpc_compatible_parent_hash<N: Node>(&self, substrate_hash: H256) -> (step: ParentStep<N>)
        ensures
            parent_step_view(step) == parent_start::<N>(self@, substrate_hash),
    {
        match self.forced_parent_hash(&substrate_hash) {
            Some(parent_hash) => Step::Done(Some(parent_hash)),
            None => Step::Ask(
                RpcCompatibleParentHash::Position,
                EthQuery::Position(substrate_hash),
            ),
        }
    }
}

} // verus!

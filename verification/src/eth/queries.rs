//! What the answers need of the node, and the values that go back and forth.

use std::sync::Arc;

use vstd::prelude::*;

use crate::block::Block;
use crate::machine::Step;
use crate::node::Node;
use crate::primitives::{zero_hash, zero_number, H256, U256};
use crate::table::HashTable;

verus! {

/// What the answers are configured with.
pub struct Eth {
    /// For some chain blocks, what Ethereum clients are shown as the hash of the parent.
    pub forced_parent_hashes: Option<HashTable>,
}

impl View for Eth {
    type V = Option<Map<H256, H256>>;

    open spec fn view(&self) -> Option<Map<H256, H256>> {
        match self.forced_parent_hashes {
            Some(table) => Some(table@),
            None => None,
        }
    }
}

/// The parent hash that is forced for the chain block, if there is one.
pub open spec fn forced_parent(forced: Option<Map<H256, H256>>, hash: H256) -> Option<H256> {
    match forced {
        Some(table) => if table.dom().contains(hash) {
            Some(table[hash])
        } else {
            None
        },
        None => None,
    }
}

impl Eth {
    /// The parent hash that is forced for the chain block, if there is one.
    pub fn forced_parent_hash(&self, hash: &H256) -> (forced: Option<H256>)
        ensures
            forced == forced_parent(self@, *hash),
            forced is Some <==> (self@ matches Some(table) && table.dom().contains(*hash)),
            forced is Some ==> forced->0 == self@->0[*hash],
    {
        match &self.forced_parent_hashes {
            Some(table) => table.get(hash),
            None => None,
        }
    }
}

/// Where a chain block stands in the chain.
#[derive(Clone, Copy)]
pub struct ChainPosition {
    pub number: U256,
    pub parent_hash: H256,
}

/// What became of a transaction of a block.
pub struct TransactionStatus<N: Node> {
    pub transaction_hash: H256,
    pub transaction_index: u32,
    pub details: N::StatusDetails,
}

/// What is known of an Ethereum block.
pub struct BlockInfo<N: Node> {
    pub block: Option<Block<N::Transaction>>,
    pub statuses: Option<Vec<TransactionStatus<N>>>,
    pub substrate_hash: H256,
    pub base_fee: U256,
    /// What else is known; none where nothing is known of the block.
    pub details: Option<N::InfoDetails>,
}

/// That nothing is known of a block.
pub open spec fn unknown_info<N: Node>() -> BlockInfo<N> {
    BlockInfo {
        block: None,
        statuses: None,
        substrate_hash: zero_hash(),
        base_fee: zero_number(),
        details: None,
    }
}

impl<N: Node> BlockInfo<N> {
    /// That nothing is known of a block.
    pub fn unknown() -> (info: BlockInfo<N>)
        ensures
            info == unknown_info::<N>(),
            info.block is None && info.statuses is None && info.details is None,
            info.base_fee@ == 0,
            forall|i: int| 0 <= i < 32 ==> #[trigger] info.substrate_hash@[i] == 0,
    {
        BlockInfo {
            block: None,
            statuses: None,
            substrate_hash: H256::zero(),
            base_fee: U256::zero(),
            details: None,
        }
    }
}

/// A block that a client asks for by its place in the chain.
pub enum BlockNumberOrHash<N: Node> {
    /// The block that is yet to come.
    Pending,
    /// Any other.
    At(N::BlockTag),
}

/// Why a client gets no answer.
pub enum RpcError<N: Node> {
    /// An internal error with its message.
    Internal(String),
    /// An error that the node reports.
    Node(N::Error),
}

/// What an [`RpcError`] holds.
pub enum RpcErrorView<N: Node> {
    Internal(Seq<char>),
    Node(N::Error),
}

impl<N: Node> View for RpcError<N> {
    type V = RpcErrorView<N>;

    open spec fn view(&self) -> RpcErrorView<N> {
        match *self {
            RpcError::Internal(message) => RpcErrorView::Internal(message@),
            RpcError::Node(error) => RpcErrorView::Node(error),
        }
    }
}

/// What the answers ask the node to look up or to do.
pub enum EthQuery<N: Node> {
    /// The hash, kept in the mapping, under which Ethereum clients know the chain block.
    StoredHash(H256),
    /// The same from the cache.
    CachedHash(H256),
    /// The place of the chain block in the chain.
    Position(H256),
    /// The Ethereum block at the chain block.
    CurrentBlock(H256),
    /// Keep in the caches that Ethereum clients know the chain block, which comes first, by the
    /// hash that comes second.
    CacheHash(H256, H256),
    /// The chain block that Ethereum clients know by the hash, from the cache.
    CachedChainHash(H256),
    /// Whether the chain block is on the canonical chain.
    IsCanon(H256),
    /// What is known of the Ethereum block at the chain block.
    BlockInfoByChainHash(H256),
    /// The chain blocks, kept in the mapping, that Ethereum clients know by the hash.
    MappedChainHashes(H256),
    /// What is known of the Ethereum block that has the hash by itself.
    BlockInfoByEthBlockHash(H256),
    /// What is known of the Ethereum block at the place.
    BlockInfoByNumber(BlockNumberOrHash<N>),
    /// The node's way to point at the block at the place.
    NativeBlockId(BlockNumberOrHash<N>),
    /// The chain block to which the pointer points.
    ChainHashOfId(N::BlockId),
    /// The statuses of the transactions at the chain block.
    CurrentStatuses(H256),
    /// The gas price at the chain block.
    GasPrice(H256),
    /// The hash of the best block.
    BestHash,
    /// The transactions in the pool that are ready.
    ReadyExtrinsics,
    /// The transactions in the pool that wait for others.
    FutureExtrinsics,
    /// The Ethereum block that would follow the chain block with the given transactions.
    PendingBlock(H256, Vec<N::Extrinsic>),
    /// The number of transactions in the pool that are ready.
    ReadyCount,
    /// The receipt of the transaction with the hash, at the index in the block.
    TransactionReceipt(Arc<BlockInfo<N>>, H256, usize),
}

/// What an [`EthQuery`] holds.
pub enum EthQueryView<N: Node> {
    StoredHash(H256),
    CachedHash(H256),
    Position(H256),
    CurrentBlock(H256),
    CacheHash(H256, H256),
    CachedChainHash(H256),
    IsCanon(H256),
    BlockInfoByChainHash(H256),
    MappedChainHashes(H256),
    BlockInfoByEthBlockHash(H256),
    BlockInfoByNumber(BlockNumberOrHash<N>),
    NativeBlockId(BlockNumberOrHash<N>),
    ChainHashOfId(N::BlockId),
    CurrentStatuses(H256),
    GasPrice(H256),
    BestHash,
    ReadyExtrinsics,
    FutureExtrinsics,
    PendingBlock(H256, Seq<N::Extrinsic>),
    ReadyCount,
    TransactionReceipt(BlockInfo<N>, H256, usize),
}

impl<N: Node> View for EthQuery<N> {
    type V = EthQueryView<N>;

    open spec fn view(&self) -> EthQueryView<N> {
        match *self {
            EthQuery::StoredHash(hash) => EthQueryView::StoredHash(hash),
            EthQuery::CachedHash(hash) => EthQueryView::CachedHash(hash),
            EthQuery::Position(hash) => EthQueryView::Position(hash),
            EthQuery::CurrentBlock(hash) => EthQueryView::CurrentBlock(hash),
            EthQuery::CacheHash(hash, compatible) => EthQueryView::CacheHash(hash, compatible),
            EthQuery::CachedChainHash(hash) => EthQueryView::CachedChainHash(hash),
            EthQuery::IsCanon(hash) => EthQueryView::IsCanon(hash),
            EthQuery::BlockInfoByChainHash(hash) => EthQueryView::BlockInfoByChainHash(hash),
            EthQuery::MappedChainHashes(hash) => EthQueryView::MappedChainHashes(hash),
            EthQuery::BlockInfoByEthBlockHash(hash) => EthQueryView::BlockInfoByEthBlockHash(hash),
            EthQuery::BlockInfoByNumber(place) => EthQueryView::BlockInfoByNumber(place),
            EthQuery::NativeBlockId(place) => EthQueryView::NativeBlockId(place),
            EthQuery::ChainHashOfId(id) => EthQueryView::ChainHashOfId(id),
            EthQuery::CurrentStatuses(hash) => EthQueryView::CurrentStatuses(hash),
            EthQuery::GasPrice(hash) => EthQueryView::GasPrice(hash),
            EthQuery::BestHash => EthQueryView::BestHash,
            EthQuery::ReadyExtrinsics => EthQueryView::ReadyExtrinsics,
            EthQuery::FutureExtrinsics => EthQueryView::FutureExtrinsics,
            EthQuery::PendingBlock(hash, extrinsics) => EthQueryView::PendingBlock(
                hash,
                extrinsics@,
            ),
            EthQuery::ReadyCount => EthQueryView::ReadyCount,
            EthQuery::TransactionReceipt(info, hash, index) => EthQueryView::TransactionReceipt(
                *info,
                hash,
                index,
            ),
        }
    }
}

/// What the node answers.
pub enum EthReply<N: Node> {
    /// To `StoredHash`; why it could not be read is of no account.
    StoredHash(Result<Option<H256>, ()>),
    /// To `CachedHash` and `CachedChainHash`; there is none if the cache cannot be read.
    CachedHash(Option<H256>),
    /// To `Position`; why it could not be read is of no account.
    Position(Result<Option<ChainPosition>, ()>),
    /// To `CurrentBlock`.
    Block(Option<Block<N::Transaction>>),
    /// To `CacheHash`.
    Cached,
    /// To `IsCanon`.
    Canon(bool),
    /// To `BlockInfoByChainHash`, `BlockInfoByEthBlockHash` and `BlockInfoByNumber`.
    Info(Result<BlockInfo<N>, N::Error>),
    /// To `MappedChainHashes`; the error is written out.
    MappedChainHashes(Result<Option<Vec<H256>>, String>),
    /// To `NativeBlockId`.
    Id(Result<Option<N::BlockId>, N::Error>),
    /// To `ChainHashOfId`; in place of an error comes the pointer, written out.
    ChainHash(Result<H256, String>),
    /// To `CurrentStatuses`.
    Statuses(Option<Vec<TransactionStatus<N>>>),
    /// To `GasPrice`; why it could not be read is of no account.
    GasPrice(Result<U256, ()>),
    /// To `BestHash`.
    BestHash(H256),
    /// To `ReadyExtrinsics` and `FutureExtrinsics`.
    Extrinsics(Vec<N::Extrinsic>),
    /// To `PendingBlock`; in place of an error comes the hash of the chain block, written out as the
    /// chain writes its hashes.
    Pending(Result<(Option<Block<N::Transaction>>, Option<Vec<TransactionStatus<N>>>), String>),
    /// To `ReadyCount`.
    Count(usize),
    /// To `TransactionReceipt`.
    Receipt(Result<Option<N::Receipt>, N::Error>),
}

/// `reply` is of the kind that `query` asks for.
pub open spec fn answers<N: Node>(query: EthQueryView<N>, reply: EthReply<N>) -> bool {
    match query {
        EthQueryView::StoredHash(_) => reply is StoredHash,
        EthQueryView::CachedHash(_) | EthQueryView::CachedChainHash(_) => reply is CachedHash,
        EthQueryView::Position(_) => reply is Position,
        EthQueryView::CurrentBlock(_) => reply is Block,
        EthQueryView::CacheHash(_, _) => reply is Cached,
        EthQueryView::IsCanon(_) => reply is Canon,
        EthQueryView::BlockInfoByChainHash(_)
        | EthQueryView::BlockInfoByEthBlockHash(_)
        | EthQueryView::BlockInfoByNumber(_) => reply is Info,
        EthQueryView::MappedChainHashes(_) => reply is MappedChainHashes,
        EthQueryView::NativeBlockId(_) => reply is Id,
        EthQueryView::ChainHashOfId(_) => reply is ChainHash,
        EthQueryView::CurrentStatuses(_) => reply is Statuses,
        EthQueryView::GasPrice(_) => reply is GasPrice,
        EthQueryView::BestHash => reply is BestHash,
        EthQueryView::ReadyExtrinsics | EthQueryView::FutureExtrinsics => reply is Extrinsics,
        EthQueryView::PendingBlock(_, _) => reply is Pending,
        EthQueryView::ReadyCount => reply is Count,
        EthQueryView::TransactionReceipt(_, _, _) => reply is Receipt,
    }
}

/// The query changes something: the caches only.
pub open spec fn is_effect<N: Node>(query: EthQueryView<N>) -> bool {
    query is CacheHash
}

/// The node answers every query by a reply of the right kind.
pub open spec fn answers_all<N: Node>(node: spec_fn(EthQueryView<N>) -> EthReply<N>) -> bool {
    forall|query: EthQueryView<N>| answers(query, #[trigger] node(query))
}

/// The query reads one of the caches.
pub open spec fn reads_cache<N: Node>(query: EthQueryView<N>) -> bool {
    query is CachedHash || query is CachedChainHash
}

/// The node answers every query by a reply of the right kind, and what it answers may depend on
/// what was cached before where a cache is read, but nowhere else.
pub open spec fn only_caches_change<N: Node>(
    node: spec_fn(Seq<EthQueryView<N>>, EthQueryView<N>) -> EthReply<N>,
) -> bool {
    &&& forall|past: Seq<EthQueryView<N>>, query: EthQueryView<N>|
        answers(query, #[trigger] node(past, query))
    &&& forall|past: Seq<EthQueryView<N>>, query: EthQueryView<N>|
        !reads_cache(query) ==> #[trigger] node(past, query) == node(Seq::empty(), query)
}

/// The result with its error as what it holds.
pub open spec fn error_view<N: Node, A>(result: Result<A, RpcError<N>>) -> Result<
    A,
    RpcErrorView<N>,
> {
    match result {
        Ok(value) => Ok(value),
        Err(error) => Err(error@),
    }
}

/// The step with its query and its error as what they hold.
pub open spec fn step_view<S, N: Node, A>(
    step: Step<S, EthQuery<N>, Result<A, RpcError<N>>>,
) -> Step<S, EthQueryView<N>, Result<A, RpcErrorView<N>>> {
    match step {
        Step::Ask(state, query) => Step::Ask(state, query@),
        Step::Done(result) => Step::Done(error_view(result)),
    }
}

/// The node's own result as an answer.
pub open spec fn node_result<N: Node, A>(result: Result<A, N::Error>) -> Result<
    A,
    RpcErrorView<N>,
> {
    match result {
        Ok(value) => Ok(value),
        Err(error) => Err(RpcErrorView::Node(error)),
    }
}

} // verus!

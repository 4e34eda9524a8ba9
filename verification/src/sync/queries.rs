//! What the synchronisation asks of the node, and the values that go back and forth.

use vstd::prelude::*;

use crate::block::Block;
use crate::machine::{message_view, Step};
use crate::node::Node;
use crate::primitives::{H256, U256};

verus! {

/// What the synchronisation reads of a chain header.
pub struct ChainHeader<N: Node> {
    pub hash: N::Hash,
    pub number: U256,
    pub parent_hash: N::Hash,
    pub digest: N::Digest,
}

/// Which blocks are mapped: all of them, or those up to the best block only.
#[derive(Clone, Copy, Debug, PartialEq, Eq, Structural)]
pub enum SyncStrategy {
    Normal,
    Parachain,
}

/// The Ethereum hashes of a block and of its transactions.
pub struct Hashes {
    pub block_hash: H256,
    pub transaction_hashes: Vec<H256>,
}

/// What a header's digest says before the block is executed.
pub enum PreLog<N: Node> {
    Block(Block<N::Transaction>),
}

/// What a header's digest says after the block was executed.
pub enum PostLog<N: Node> {
    Hashes(Hashes),
    Block(Block<N::Transaction>),
    BlockHash(H256),
}

/// What a header's digest says of the Ethereum block.
pub enum Log<N: Node> {
    Pre(PreLog<N>),
    Post(PostLog<N>),
}

/// Why a header's digest does not tell the Ethereum block.
pub enum FindLogError {
    NotFound,
    MultipleLogs,
}

/// The hashes to be kept for a chain block.
pub struct MappingCommitment<H> {
    pub block_hash: H,
    pub ethereum_block_hash: H256,
    pub rpc_compatible_block_hash: Option<H256>,
    pub ethereum_transaction_hashes: Vec<H256>,
}

/// What a [`MappingCommitment`] holds.
pub struct CommitmentView<H> {
    pub block_hash: H,
    pub ethereum_block_hash: H256,
    pub rpc_compatible_block_hash: Option<H256>,
    pub ethereum_transaction_hashes: Seq<H256>,
}

impl<H> View for MappingCommitment<H> {
    type V = CommitmentView<H>;

    open spec fn view(&self) -> CommitmentView<H> {
        CommitmentView {
            block_hash: self.block_hash,
            ethereum_block_hash: self.ethereum_block_hash,
            rpc_compatible_block_hash: self.rpc_compatible_block_hash,
            ethereum_transaction_hashes: self.ethereum_transaction_hashes@,
        }
    }
}

/// The news that a block was mapped.
#[derive(Clone, Copy, Debug)]
pub struct EthereumBlockNotification<H> {
    pub is_new_best: bool,
    pub hash: H,
}

/// What the synchronisation asks the node to look up or to do.
pub enum SyncQuery<N: Node> {
    /// The stored tips from which the synchronisation goes on.
    CurrentSyncingTips,
    /// The leaves of the chain.
    Leaves,
    /// Whether the block is in the mapping.
    IsSynced(N::Hash),
    /// The hash, kept in the mapping, under which Ethereum clients know the chain block.
    RpcCompatibleHash(N::Hash),
    /// The header of the chain block.
    Header(N::Hash),
    /// Store the tips from which the synchronisation goes on.
    WriteCurrentSyncingTips(Vec<N::Hash>),
    /// The number of the best block.
    BestNumber,
    /// The version of the runtime's Ethereum interface at the chain block.
    ApiVersion(N::Hash),
    /// The Ethereum block at the chain block, from the runtime.
    RuntimeBlock(N::Hash),
    /// The same from a runtime of the first version, brought to the current format.
    LegacyRuntimeBlock(N::Hash),
    /// What the digest says of the Ethereum block.
    FindLog(N::Digest),
    /// The hashes of the Ethereum block and of its transactions.
    HashesFromBlock(Block<N::Transaction>),
    /// The Ethereum block at the chain block, from the chain's storage.
    StoredBlock(N::Hash),
    /// Keep the hashes of a chain block.
    WriteHashes(MappingCommitment<N::Hash>),
    /// Keep that the chain block has no Ethereum block.
    WriteNone(N::Hash),
    /// Take hold of the listeners, and count them.
    LockSinks,
    /// Whether the node is in a major synchronisation, asked for the listener at the index.
    IsMajorSyncing(usize),
    /// The hash of the best block, asked for the listener at the index.
    BestHash(usize),
    /// Send the news to the listener at the index.
    Send(usize, EthereumBlockNotification<N::Hash>),
    /// Keep those listeners, in order, whose place holds `true`, and let go of the list.
    RetainSinks(Vec<bool>),
}

/// What a [`SyncQuery`] holds.
pub enum SyncQueryView<N: Node> {
    CurrentSyncingTips,
    Leaves,
    IsSynced(N::Hash),
    RpcCompatibleHash(N::Hash),
    Header(N::Hash),
    WriteCurrentSyncingTips(Seq<N::Hash>),
    BestNumber,
    ApiVersion(N::Hash),
    RuntimeBlock(N::Hash),
    LegacyRuntimeBlock(N::Hash),
    FindLog(N::Digest),
    HashesFromBlock(Block<N::Transaction>),
    StoredBlock(N::Hash),
    WriteHashes(CommitmentView<N::Hash>),
    WriteNone(N::Hash),
    LockSinks,
    IsMajorSyncing(usize),
    BestHash(usize),
    Send(usize, EthereumBlockNotification<N::Hash>),
    RetainSinks(Seq<bool>),
}

impl<N: Node> View for SyncQuery<N> {
    type V = SyncQueryView<N>;

    open spec fn view(&self) -> SyncQueryView<N> {
        match *self {
            SyncQuery::CurrentSyncingTips => SyncQueryView::CurrentSyncingTips,
            SyncQuery::Leaves => SyncQueryView::Leaves,
            SyncQuery::IsSynced(hash) => SyncQueryView::IsSynced(hash),
            SyncQuery::RpcCompatibleHash(hash) => SyncQueryView::RpcCompatibleHash(hash),
            SyncQuery::Header(hash) => SyncQueryView::Header(hash),
            SyncQuery::WriteCurrentSyncingTips(tips) => SyncQueryView::WriteCurrentSyncingTips(
                tips@,
            ),
            SyncQuery::BestNumber => SyncQueryView::BestNumber,
            SyncQuery::ApiVersion(hash) => SyncQueryView::ApiVersion(hash),
            SyncQuery::RuntimeBlock(hash) => SyncQueryView::RuntimeBlock(hash),
            SyncQuery::LegacyRuntimeBlock(hash) => SyncQueryView::LegacyRuntimeBlock(hash),
            SyncQuery::FindLog(digest) => SyncQueryView::FindLog(digest),
            SyncQuery::HashesFromBlock(block) => SyncQueryView::HashesFromBlock(block),
            SyncQuery::StoredBlock(hash) => SyncQueryView::StoredBlock(hash),
            SyncQuery::WriteHashes(commitment) => SyncQueryView::WriteHashes(commitment@),
            SyncQuery::WriteNone(hash) => SyncQueryView::WriteNone(hash),
            SyncQuery::LockSinks => SyncQueryView::LockSinks,
            SyncQuery::IsMajorSyncing(sink) => SyncQueryView::IsMajorSyncing(sink),
            SyncQuery::BestHash(sink) => SyncQueryView::BestHash(sink),
            SyncQuery::Send(sink, news) => SyncQueryView::Send(sink, news),
            SyncQuery::RetainSinks(keep) => SyncQueryView::RetainSinks(keep@),
        }
    }
}

/// What the node answers.
pub enum SyncReply<N: Node> {
    /// To `CurrentSyncingTips` and `Leaves`.
    Tips(Result<Vec<N::Hash>, String>),
    /// To `IsSynced`.
    Synced(Result<bool, String>),
    /// To `RpcCompatibleHash`.
    CompatibleHash(Result<Option<H256>, String>),
    /// To `Header`; why it could not be read is of no account.
    Header(Result<Option<ChainHeader<N>>, ()>),
    /// To `BestNumber`.
    Number(U256),
    /// To `ApiVersion`.
    Version(Result<Option<u32>, String>),
    /// To `RuntimeBlock` and `LegacyRuntimeBlock`.
    RuntimeBlock(Result<Option<Block<N::Transaction>>, String>),
    /// To `FindLog`.
    Log(Result<Log<N>, FindLogError>),
    /// To `HashesFromBlock`.
    Hashes(Hashes),
    /// To `StoredBlock`.
    StoredBlock(Option<Block<N::Transaction>>),
    /// To `WriteCurrentSyncingTips`, `WriteHashes` and `WriteNone`.
    Written(Result<(), String>),
    /// To `LockSinks`.
    SinkCount(usize),
    /// To `IsMajorSyncing`.
    MajorSyncing(bool),
    /// To `BestHash`.
    Hash(N::Hash),
    /// To `Send`: whether the listener could be reached.
    Sent(bool),
    /// To `RetainSinks`.
    Retained,
}

/// `reply` is of the kind that `query` asks for.
pub open spec fn answers<N: Node>(query: SyncQueryView<N>, reply: SyncReply<N>) -> bool {
    match query {
        SyncQueryView::CurrentSyncingTips | SyncQueryView::Leaves => reply is Tips,
        SyncQueryView::IsSynced(_) => reply is Synced,
        SyncQueryView::RpcCompatibleHash(_) => reply is CompatibleHash,
        SyncQueryView::Header(_) => reply is Header,
        SyncQueryView::BestNumber => reply is Number,
        SyncQueryView::ApiVersion(_) => reply is Version,
        SyncQueryView::RuntimeBlock(_) | SyncQueryView::LegacyRuntimeBlock(_) => reply
            is RuntimeBlock,
        SyncQueryView::FindLog(_) => reply is Log,
        SyncQueryView::HashesFromBlock(_) => reply is Hashes,
        SyncQueryView::StoredBlock(_) => reply is StoredBlock,
        SyncQueryView::WriteCurrentSyncingTips(_)
        | SyncQueryView::WriteHashes(_)
        | SyncQueryView::WriteNone(_) => reply is Written,
        SyncQueryView::LockSinks => reply is SinkCount,
        SyncQueryView::IsMajorSyncing(_) => reply is MajorSyncing,
        SyncQueryView::BestHash(_) => reply is Hash,
        SyncQueryView::Send(_, _) => reply is Sent,
        SyncQueryView::RetainSinks(_) => reply is Retained,
    }
}

/// The query changes something, or tells someone of a change.
pub open spec fn is_effect<N: Node>(query: SyncQueryView<N>) -> bool {
    match query {
        SyncQueryView::WriteCurrentSyncingTips(_)
        | SyncQueryView::WriteHashes(_)
        | SyncQueryView::WriteNone(_)
        | SyncQueryView::Send(_, _)
        | SyncQueryView::RetainSinks(_) => true,
        _ => false,
    }
}

/// The node answers every query by a reply of the right kind.
pub open spec fn answers_all<N: Node>(node: spec_fn(SyncQueryView<N>) -> SyncReply<N>) -> bool {
    forall|query: SyncQueryView<N>| answers(query, #[trigger] node(query))
}

/// The step with its query and its error message as what they hold.
pub open spec fn step_view<S, N: Node, A>(
    step: Step<S, SyncQuery<N>, Result<A, String>>,
) -> Step<S, SyncQueryView<N>, Result<A, Seq<char>>> {
    match step {
        Step::Ask(state, query) => Step::Ask(state, query@),
        Step::Done(result) => Step::Done(message_view(result)),
    }
}

} // verus!

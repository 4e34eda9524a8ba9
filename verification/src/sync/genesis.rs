//! Mapping the genesis block, whose Ethereum block the runtime tells.

use vstd::prelude::*;

use crate::block::Block;
use crate::hashing::{ethereum_hash_of, rpc_compatible_block_hash, rpc_compatible_hash_of};
use crate::machine::{message_view, run, Run, Step};
use crate::node::Node;
use crate::sync::queries::{
    answers_all, is_effect, step_view, ChainHeader, CommitmentView, MappingCommitment, SyncQuery,
    SyncQueryView, SyncReply,
};

verus! {

/// The mapping of the genesis block, where it waits for a reply.
pub enum SyncGenesisBlock<N: Node> {
    /// For the version of the runtime's Ethereum interface.
    Version { hash: N::Hash },
    /// For the Ethereum block.
    Block { hash: N::Hash },
    /// For the entry to be written.
    Written,
}

/// Where the mapping of the genesis block stands.
pub type SyncGenesisStep<N> = Step<SyncGenesisBlock<N>, SyncQuery<N>, Result<(), String>>;

/// What a [`SyncGenesisStep`] holds.
pub type SyncGenesisStepView<N> = Step<SyncGenesisBlock<N>, SyncQueryView<N>, Result<(), Seq<char>>>;

/// The entry for the genesis block: no transaction is listed, and Ethereum clients are shown the
/// parent that the header names.
pub open spec fn genesis_commitment<H, T>(hash: H, block: Block<T>) -> CommitmentView<H> {
    CommitmentView {
        block_hash: hash,
        ethereum_block_hash: ethereum_hash_of(block.header@),
        rpc_compatible_block_hash: Some(rpc_compatible_hash_of(block.header@, None)),
        ethereum_transaction_hashes: Seq::empty(),
    }
}

/// The query that reads the Ethereum block from a runtime of the given version.
pub open spec fn genesis_block_query<N: Node>(version: u32, hash: N::Hash) -> SyncQueryView<N> {
    if version > 1 {
        SyncQueryView::RuntimeBlock(hash)
    } else {
        SyncQueryView::LegacyRuntimeBlock(hash)
    }
}

impl<N: Node> SyncGenesisBlock<N> {
    /// The mapping waits for a reply of this kind.
    pub open spec fn awaits(self, reply: SyncReply<N>) -> bool {
        match self {
            SyncGenesisBlock::Version { .. } => reply is Version,
            SyncGenesisBlock::Block { .. } => reply is RuntimeBlock,
            SyncGenesisBlock::Written => reply is Written,
        }
    }

    /// Where the mapping stands after the reply.
    pub open spec fn next(self, reply: SyncReply<N>) -> SyncGenesisStepView<N> {
        match (self, reply) {
            (SyncGenesisBlock::Version { hash }, SyncReply::Version(reply)) => match reply {
                Ok(Some(version)) => Step::Ask(
                    SyncGenesisBlock::Block { hash },
                    genesis_block_query(version, hash),
                ),
                Ok(None) => Step::Ask(SyncGenesisBlock::Written, SyncQueryView::WriteNone(hash)),
                Err(message) => Step::Done(Err(message@)),
            },
            (SyncGenesisBlock::Block { hash }, SyncReply::RuntimeBlock(reply)) => match reply {
                Ok(Some(block)) => Step::Ask(
                    SyncGenesisBlock::Written,
                    SyncQueryView::WriteHashes(genesis_commitment(hash, block)),
                ),
                Ok(None) => Step::Done(Err("Ethereum genesis block not found"@)),
                Err(message) => Step::Done(Err(message@)),
            },
            (SyncGenesisBlock::Written, SyncReply::Written(result)) => Step::Done(
                message_view(result),
            ),
            _ => arbitrary(),
        }
    }

    /// Goes on with the node's reply.
    pub fn resume(self, reply: SyncReply<N>) -> (step: SyncGenesisStep<N>)
        requires
            self.awaits(reply),
        ensures
            step_view(step) == self.next(reply),
    {
        match (self, reply) {
            (SyncGenesisBlock::Version { hash }, SyncReply::Version(reply)) => match reply {
                Ok(Some(version)) => {
                    let query = if version > 1 {
                        SyncQuery::RuntimeBlock(hash)
                    } else {
                        SyncQuery::LegacyRuntimeBlock(hash)
                    };
                    Step::Ask(SyncGenesisBlock::Block { hash }, query)
                },
                Ok(None) => Step::Ask(SyncGenesisBlock::Written, SyncQuery::WriteNone(hash)),
                Err(message) => Step::Done(Err(message)),
            },
            (SyncGenesisBlock::Block { hash }, SyncReply::RuntimeBlock(reply)) => match reply {
                Ok(Some(block)) => {
                    let commitment = MappingCommitment {
                        block_hash: hash,
                        ethereum_block_hash: block.header.hash(),
                        rpc_compatible_block_hash: Some(rpc_compatible_block_hash(&block, None)),
                        ethereum_transaction_hashes: Vec::new(),
                    };
                    Step::Ask(SyncGenesisBlock::Written, SyncQuery::WriteHashes(commitment))
                },
                Ok(None) => Step::Done(Err("Ethereum genesis block not found".to_owned())),
                Err(message) => Step::Done(Err(message)),
            },
            (SyncGenesisBlock::Written, SyncReply::Written(result)) => Step::Done(result),
            _ => vstd::pervasive::unreached(),
        }
    }
}

/// The first step of the mapping of the genesis block.
pub open spec fn sync_genesis_start<N: Node>(hash: N::Hash) -> SyncGenesisStepView<N> {
    Step::Ask(SyncGenesisBlock::Version { hash }, SyncQueryView::ApiVersion(hash))
}

/// Starts to map the genesis block, which has the given header.
pub fn sync_genesis_block<N: Node>(header: &ChainHeader<N>) -> (step: SyncGenesisStep<N>)
    ensures
        step_view(step) == sync_genesis_start::<N>(header.hash),
{
    Step::Ask(
        SyncGenesisBlock::Version { hash: header.hash },
        SyncQuery::ApiVersion(header.hash),
    )
}

/// The whole mapping of the genesis block.
pub open spec fn sync_genesis_run<N: Node>(
    node: spec_fn(SyncQueryView<N>) -> SyncReply<N>,
    step: SyncGenesisStepView<N>,
    fuel: nat,
) -> Run<SyncQueryView<N>, Result<(), Seq<char>>> {
    run(
        |state: SyncGenesisBlock<N>, reply: SyncReply<N>| state.next(reply),
        |query: SyncQueryView<N>| is_effect(query),
        node,
        step,
        fuel,
    )
}

/// The one entry that is to be written for the genesis block, or why there is none.
pub open spec fn due_genesis_entry<N: Node>(
    node: spec_fn(SyncQueryView<N>) -> SyncReply<N>,
    hash: N::Hash,
) -> Result<SyncQueryView<N>, Seq<char>> {
    match node(SyncQueryView::ApiVersion(hash))->Version_0 {
        Err(message) => Err(message@),
        Ok(None) => Ok(SyncQueryView::WriteNone(hash)),
        Ok(Some(version)) => match node(
            genesis_block_query::<N>(version, hash),
        )->RuntimeBlock_0 {
            Err(message) => Err(message@),
            Ok(None) => Err("Ethereum genesis block not found"@),
            Ok(Some(block)) => Ok(SyncQueryView::WriteHashes(genesis_commitment(hash, block))),
        },
    }
}

/// The mapping of the genesis block makes at most three queries. It writes the one entry that is
/// due and nothing else, and its result is that of the write; where no entry is due it writes
/// nothing.
pub proof fn law_sync_genesis_block<N: Node>(
    node: spec_fn(SyncQueryView<N>) -> SyncReply<N>,
    hash: N::Hash,
    fuel: nat,
)
    requires
        answers_all(node),
        fuel >= 3,
    ensures
        ({
            let whole = sync_genesis_run(node, sync_genesis_start::<N>(hash), fuel);
            match due_genesis_entry(node, hash) {
                Ok(entry) => {
                    &&& whole.effects == seq![entry]
                    &&& whole.outcome == Some(message_view(node(entry)->Written_0))
                },
                Err(message) => {
                    &&& whole.effects.len() == 0
                    &&& whole.outcome == Some(Err::<(), Seq<char>>(message))
                },
            }
        }),
{
    reveal_with_fuel(run, 4);
}

} // verus!

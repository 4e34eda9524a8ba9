//! Mapping one block.

use vstd::prelude::*;
use vstd::string::StringExecFns;

use crate::block::Block;
use crate::hashing::{ethereum_hash_of, rpc_compatible_block_hash, rpc_compatible_hash_of};
use crate::machine::{message_view, run, Run, Step};
use crate::node::Node;
use crate::primitives::H256;
use crate::sync::queries::{
    answers_all, is_effect, step_view, ChainHeader, CommitmentView, FindLogError, Hashes, Log,
    MappingCommitment, PostLog, PreLog, SyncQuery, SyncQueryView, SyncReply,
};
use crate::text::{debug_hash, full_text};

verus! {

/// A block of the chain, and what Ethereum clients know its parent as.
#[derive(Clone, Copy)]
pub struct Place<H> {
    pub hash: H,
    pub is_genesis: bool,
    pub parent_hash: Option<H256>,
}

impl<H> Place<H> {
    /// The hash under which Ethereum clients know the block: there is one for the genesis block,
    /// and for a block whose parent has one.
    pub open spec fn hash_of<T>(self, block: Block<T>) -> Option<H256> {
        if self.is_genesis || self.parent_hash is Some {
            Some(rpc_compatible_hash_of(block.header@, self.parent_hash))
        } else {
            None
        }
    }

    fn rpc_compatible_hash<T>(&self, block: &Block<T>) -> (hash: Option<H256>)
        ensures
            hash == self.hash_of(*block),
    {
        if self.is_genesis || self.parent_hash.is_some() {
            Some(rpc_compatible_block_hash(block, self.parent_hash))
        } else {
            None
        }
    }
}

/// The mapping of a block, where it waits for a reply.
pub enum SyncBlock<N: Node> {
    /// For the hash under which Ethereum clients know the parent.
    Parent { hash: N::Hash, digest: N::Digest },
    /// For what the digest says.
    Log { place: Place<N::Hash> },
    /// For the Ethereum block, whose hashes the digest gave.
    StoredForHashes { place: Place<N::Hash>, hashes: Hashes },
    /// For the Ethereum block, whose hash the digest gave.
    StoredForBlockHash { place: Place<N::Hash>, expected: H256 },
    /// For the hashes of the Ethereum block.
    Hashes { hash: N::Hash, compatible_hash: Option<H256> },
    /// For the entry to be written.
    Written,
}

/// Where the mapping of a block stands.
pub type SyncBlockStep<N> = Step<SyncBlock<N>, SyncQuery<N>, Result<(), String>>;

/// What a [`SyncBlockStep`] holds.
pub type SyncBlockStepView<N> = Step<SyncBlock<N>, SyncQueryView<N>, Result<(), Seq<char>>>;

/// The message for a block whose hash is not the one that the digest gives.
pub open spec fn mismatch_message(expected: H256, got: H256) -> Seq<char> {
    "Ethereum block hash mismatch: frontier consensus digest ("@ + full_text(expected)
        + "), db state ("@ + full_text(got) + ")"@
}

fn mismatch(expected: &H256, got: &H256) -> (message: String)
    ensures
        message@ == mismatch_message(*expected, *got),
{
    "Ethereum block hash mismatch: frontier consensus digest (".to_owned().concat(
        debug_hash(expected).as_str(),
    ).concat("), db state (").concat(debug_hash(got).as_str()).concat(")")
}

/// The entry for a block with these Ethereum hashes.
pub open spec fn commitment<H>(
    hash: H,
    hashes: Hashes,
    compatible_hash: Option<H256>,
) -> CommitmentView<H> {
    CommitmentView {
        block_hash: hash,
        ethereum_block_hash: hashes.block_hash,
        rpc_compatible_block_hash: compatible_hash,
        ethereum_transaction_hashes: hashes.transaction_hashes@,
    }
}

/// Asks for the hashes of the Ethereum block.
pub open spec fn ask_hashes<N: Node>(
    place: Place<N::Hash>,
    block: Block<N::Transaction>,
) -> SyncBlockStepView<N> {
    Step::Ask(
        SyncBlock::Hashes { hash: place.hash, compatible_hash: place.hash_of(block) },
        SyncQueryView::HashesFromBlock(block),
    )
}

/// Writes the entry.
pub open spec fn write_hashes<N: Node>(
    hash: N::Hash,
    hashes: Hashes,
    compatible_hash: Option<H256>,
) -> SyncBlockStepView<N> {
    Step::Ask(
        SyncBlock::Written,
        SyncQueryView::WriteHashes(commitment(hash, hashes, compatible_hash)),
    )
}

/// Writes that there is no Ethereum block.
pub open spec fn write_none<N: Node>(hash: N::Hash) -> SyncBlockStepView<N> {
    Step::Ask(SyncBlock::Written, SyncQueryView::WriteNone(hash))
}

impl<N: Node> SyncBlock<N> {
    /// The mapping waits for a reply of this kind.
    pub open spec fn awaits(self, reply: SyncReply<N>) -> bool {
        match self {
            SyncBlock::Parent { .. } => reply is CompatibleHash,
            SyncBlock::Log { .. } => reply is Log,
            SyncBlock::StoredForHashes { .. } => reply is StoredBlock,
            SyncBlock::StoredForBlockHash { .. } => reply is StoredBlock,
            SyncBlock::Hashes { .. } => reply is Hashes,
            SyncBlock::Written => reply is Written,
        }
    }

    /// What follows from what the digest says.
    pub open spec fn after_log(
        place: Place<N::Hash>,
        log: Result<Log<N>, FindLogError>,
    ) -> SyncBlockStepView<N> {
        match log {
            Ok(Log::Pre(PreLog::Block(block))) => ask_hashes(place, block),
            Ok(Log::Post(PostLog::Hashes(hashes))) => Step::Ask(
                SyncBlock::StoredForHashes { place, hashes },
                SyncQueryView::StoredBlock(place.hash),
            ),
            Ok(Log::Post(PostLog::Block(block))) => ask_hashes(place, block),
            Ok(Log::Post(PostLog::BlockHash(expected))) => Step::Ask(
                SyncBlock::StoredForBlockHash { place, expected },
                SyncQueryView::StoredBlock(place.hash),
            ),
            Err(FindLogError::NotFound) => write_none(place.hash),
            Err(FindLogError::MultipleLogs) => Step::Done(Err("Multiple logs found"@)),
        }
    }

    /// Where the mapping stands after the reply.
    pub open spec fn next(self, reply: SyncReply<N>) -> SyncBlockStepView<N> {
        match (self, reply) {
            (SyncBlock::Parent { hash, digest }, SyncReply::CompatibleHash(reply)) => match reply {
                Ok(parent_hash) => Step::Ask(
                    SyncBlock::Log { place: Place { hash, is_genesis: false, parent_hash } },
                    SyncQueryView::FindLog(digest),
                ),
                Err(message) => Step::Done(Err(message@)),
            },
            (SyncBlock::Log { place }, SyncReply::Log(log)) => Self::after_log(place, log),
            (
                SyncBlock::StoredForHashes { place, hashes },
                SyncReply::StoredBlock(block),
            ) => match block {
                Some(block) => write_hashes(place.hash, hashes, place.hash_of(block)),
                None => write_hashes(place.hash, hashes, None),
            },
            (
                SyncBlock::StoredForBlockHash { place, expected },
                SyncReply::StoredBlock(block),
            ) => match block {
                Some(block) => {
                    let got = ethereum_hash_of(block.header@);
                    if got != expected {
                        Step::Done(Err(mismatch_message(expected, got)))
                    } else {
                        ask_hashes(place, block)
                    }
                },
                None => write_none(place.hash),
            },
            (SyncBlock::Hashes { hash, compatible_hash }, SyncReply::Hashes(hashes)) => write_hashes(
                hash,
                hashes,
                compatible_hash,
            ),
            (SyncBlock::Written, SyncReply::Written(result)) => Step::Done(message_view(result)),
            _ => arbitrary(),
        }
    }

    fn derive_hashes(place: Place<N::Hash>, block: Block<N::Transaction>) -> (step: SyncBlockStep<N>)
        ensures
            step_view(step) == ask_hashes::<N>(place, block),
    {
        let compatible_hash = place.rpc_compatible_hash(&block);
        Step::Ask(
            SyncBlock::Hashes { hash: place.hash, compatible_hash },
            SyncQuery::HashesFromBlock(block),
        )
    }

    fn store_hashes(hash: N::Hash, hashes: Hashes, compatible_hash: Option<H256>) -> (step:
        SyncBlockStep<N>)
        ensures
            step_view(step) == write_hashes::<N>(hash, hashes, compatible_hash),
    {
        Step::Ask(
            SyncBlock::Written,
            SyncQuery::WriteHashes(
                MappingCommitment {
                    block_hash: hash,
                    ethereum_block_hash: hashes.block_hash,
                    rpc_compatible_block_hash: compatible_hash,
                    ethereum_transaction_hashes: hashes.transaction_hashes,
                },
            ),
        )
    }

    fn store_none(hash: N::Hash) -> (step: SyncBlockStep<N>)
        ensures
            step_view(step) == write_none::<N>(hash),
    {
        Step::Ask(SyncBlock::Written, SyncQuery::WriteNone(hash))
    }

    fn resume_with_log(place: Place<N::Hash>, log: Result<Log<N>, FindLogError>) -> (step: SyncBlockStep<N>)
        ensures
            step_view(step) == Self::after_log(place, log),
    {
        match log {
            Ok(Log::Pre(PreLog::Block(block))) => Self::derive_hashes(place, block),
            Ok(Log::Post(PostLog::Hashes(hashes))) => Step::Ask(
                SyncBlock::StoredForHashes { place, hashes },
                SyncQuery::StoredBlock(place.hash),
            ),
            Ok(Log::Post(PostLog::Block(block))) => Self::derive_hashes(place, block),
            Ok(Log::Post(PostLog::BlockHash(expected))) => Step::Ask(
                SyncBlock::StoredForBlockHash { place, expected },
                SyncQuery::StoredBlock(place.hash),
            ),
            Err(FindLogError::NotFound) => Self::store_none(place.hash),
            Err(FindLogError::MultipleLogs) => Step::Done(Err("Multiple logs found".to_owned())),
        }
    }

    /// Goes on with the node's reply.
    pub fn resume(self, reply: SyncReply<N>) -> (step: SyncBlockStep<N>)
        requires
            self.awaits(reply),
        ensures
            step_view(step) == self.next(reply),
    {
        match (self, reply) {
            (SyncBlock::Parent { hash, digest }, SyncReply::CompatibleHash(reply)) => match reply {
                Ok(parent_hash) => Step::Ask(
                    SyncBlock::Log { place: Place { hash, is_genesis: false, parent_hash } },
                    SyncQuery::FindLog(digest),
                ),
                Err(message) => Step::Done(Err(message)),
            },
            (SyncBlock::Log { place }, SyncReply::Log(log)) => Self::resume_with_log(place, log),
            (SyncBlock::StoredForHashes { place, hashes }, SyncReply::StoredBlock(block)) => {
                let compatible_hash = match &block {
                    Some(block) => place.rpc_compatible_hash(block),
                    None => None,
                };
                Self::store_hashes(place.hash, hashes, compatible_hash)
            },
            (SyncBlock::StoredForBlockHash { place, expected }, SyncReply::StoredBlock(block)) => {
                match block {
                    Some(block) => {
                        let got = block.header.hash();
                        if got != expected {
                            Step::Done(Err(mismatch(&expected, &got)))
                        } else {
                            Self::derive_hashes(place, block)
                        }
                    },
                    None => Self::store_none(place.hash),
                }
            },
            (SyncBlock::Hashes { hash, compatible_hash }, SyncReply::Hashes(hashes)) => {
                Self::store_hashes(hash, hashes, compatible_hash)
            },
            (SyncBlock::Written, SyncReply::Written(result)) => Step::Done(result),
            _ => vstd::pervasive::unreached(),
        }
    }
}

/// The first step of the mapping of a block.
pub open spec fn sync_block_start<N: Node>(header: ChainHeader<N>) -> SyncBlockStepView<N> {
    if header.number@ == 0 {
        Step::Ask(
            SyncBlock::Log {
                place: Place { hash: header.hash, is_genesis: true, parent_hash: None },
            },
            SyncQueryView::FindLog(header.digest),
        )
    } else {
        Step::Ask(
            SyncBlock::Parent { hash: header.hash, digest: header.digest },
            SyncQueryView::RpcCompatibleHash(header.parent_hash),
        )
    }
}

/// Starts to map the block with the given header.
pub fn sync_block<N: Node>(header: ChainHeader<N>) -> (step: SyncBlockStep<N>)
    ensures
        step_view(step) == sync_block_start(header),
{
    if header.number.is_zero() {
        Step::Ask(
            SyncBlock::Log {
                place: Place { hash: header.hash, is_genesis: true, parent_hash: None },
            },
            SyncQuery::FindLog(header.digest),
        )
    } else {
        Step::Ask(
            SyncBlock::Parent { hash: header.hash, digest: header.digest },
            SyncQuery::RpcCompatibleHash(header.parent_hash),
        )
    }
}

/// The whole mapping of a block.
pub open spec fn sync_block_run<N: Node>(
    node: spec_fn(SyncQueryView<N>) -> SyncReply<N>,
    step: SyncBlockStepView<N>,
    fuel: nat,
) -> Run<SyncQueryView<N>, Result<(), Seq<char>>> {
    run(
        |state: SyncBlock<N>, reply: SyncReply<N>| state.next(reply),
        |query: SyncQueryView<N>| is_effect(query),
        node,
        step,
        fuel,
    )
}

/// The entry for a block with a known Ethereum block.
pub open spec fn entry_of_block<N: Node>(
    node: spec_fn(SyncQueryView<N>) -> SyncReply<N>,
    place: Place<N::Hash>,
    block: Block<N::Transaction>,
) -> SyncQueryView<N> {
    SyncQueryView::WriteHashes(
        commitment(
            place.hash,
            node(SyncQueryView::HashesFromBlock(block))->Hashes_0,
            place.hash_of(block),
        ),
    )
}

/// The one entry that is to be written for a block, by what the node holds, or why there is none.
pub open spec fn due_entry<N: Node>(
    node: spec_fn(SyncQueryView<N>) -> SyncReply<N>,
    header: ChainHeader<N>,
) -> Result<SyncQueryView<N>, Seq<char>> {
    let is_genesis = header.number@ == 0;
    let parent = if is_genesis {
        Ok(None)
    } else {
        node(SyncQueryView::RpcCompatibleHash(header.parent_hash))->CompatibleHash_0
    };
    let stored = node(SyncQueryView::StoredBlock(header.hash))->StoredBlock_0;
    match parent {
        Err(message) => Err(message@),
        Ok(parent_hash) => {
            let place = Place { hash: header.hash, is_genesis, parent_hash };
            match node(SyncQueryView::FindLog(header.digest))->Log_0 {
                Err(FindLogError::MultipleLogs) => Err("Multiple logs found"@),
                Err(FindLogError::NotFound) => Ok(SyncQueryView::WriteNone(header.hash)),
                Ok(Log::Pre(PreLog::Block(block))) => Ok(entry_of_block(node, place, block)),
                Ok(Log::Post(PostLog::Block(block))) => Ok(entry_of_block(node, place, block)),
                Ok(Log::Post(PostLog::Hashes(hashes))) => Ok(
                    SyncQueryView::WriteHashes(
                        commitment(
                            header.hash,
                            hashes,
                            if stored is Some {
                                place.hash_of(stored->0)
                            } else {
                                None
                            },
                        ),
                    ),
                ),
                Ok(Log::Post(PostLog::BlockHash(expected))) => match stored {
                    None => Ok(SyncQueryView::WriteNone(header.hash)),
                    Some(block) => if ethereum_hash_of(block.header@) == expected {
                        Ok(entry_of_block(node, place, block))
                    } else {
                        Err(mismatch_message(expected, ethereum_hash_of(block.header@)))
                    },
                },
            }
        },
    }
}

/// The mapping of a block makes at most five queries. It writes the one entry that is due and
/// nothing else, and its result is that of the write; where no entry is due it writes nothing.
pub proof fn law_sync_block<N: Node>(
    node: spec_fn(SyncQueryView<N>) -> SyncReply<N>,
    header: ChainHeader<N>,
    fuel: nat,
)
    requires
        answers_all(node),
        fuel >= 5,
    ensures
        ({
            let whole = sync_block_run(node, sync_block_start(header), fuel);
            match due_entry(node, header) {
                Ok(entry) => {
                    &&& whole.effects == seq![entry]
                    &&& whole.outcome == Some(message_view(node(entry)->Written_0))
                },
                Err(message) => {
                    &&& whole.effects.len() == 0
                    &&& whole.outcome == Some(Err::<(), Seq<char>>(message))
                },
            }
        }),
{
    reveal_with_fuel(run, 6);
}

} // verus!

//! What the lookup of a header returns, and what the mapping of a block writes, field by field.

use vstd::prelude::*;

use crate::block::Block;
use crate::hashing::{ethereum_hash_of, rpc_compatible_hash_of};
use crate::node::Node;
use crate::primitives::{H256, U256};
use crate::sync::commit::{law_sync_block, sync_block_run, sync_block_start};
use crate::sync::fetch::{fetch_run, fetch_start, law_fetch_header};
use crate::sync::genesis::{law_sync_genesis_block, sync_genesis_run, sync_genesis_start};
use crate::sync::queries::{
    answers_all, ChainHeader, FindLogError, Hashes, Log, PostLog, PreLog, SyncQueryView, SyncReply,
};
use crate::text::full_text;

verus! {

/// The header of a tip is returned exactly if the node has it, and the tip is either in the mapping
/// without a shown hash, or not in the mapping and not below the start; and it is the node's own.
pub proof fn law_fetched_header_is_due<N: Node>(
    node: spec_fn(SyncQueryView<N>) -> SyncReply<N>,
    tip: N::Hash,
    sync_from: U256,
    fuel: nat,
    header: ChainHeader<N>,
)
    requires
        answers_all(node),
        fuel >= 3,
    ensures
        fetch_run(node, fetch_start::<N>(tip, sync_from), fuel).outcome == Some(
            Ok::<Option<ChainHeader<N>>, Seq<char>>(Some(header)),
        ) <==> {
            &&& node(SyncQueryView::Header(tip))->Header_0 == Ok::<Option<ChainHeader<N>>, ()>(
                Some(header),
            )
            &&& node(SyncQueryView::IsSynced(tip))->Synced_0 matches Ok(is_synced)
            &&& node(SyncQueryView::RpcCompatibleHash(tip))->CompatibleHash_0 matches Ok(shown)
            &&& is_synced && shown is None || !is_synced && header.number@ >= sync_from@
        },
{
    law_fetch_header(node, tip, sync_from, fuel);
}

/// No header is returned, and no error, exactly if the tip is mapped with its shown hash, or is not
/// in the mapping and below the start.
pub proof fn law_tip_is_passed_over<N: Node>(
    node: spec_fn(SyncQueryView<N>) -> SyncReply<N>,
    tip: N::Hash,
    sync_from: U256,
    fuel: nat,
)
    requires
        answers_all(node),
        fuel >= 3,
    ensures
        fetch_run(node, fetch_start::<N>(tip, sync_from), fuel).outcome == Some(
            Ok::<Option<ChainHeader<N>>, Seq<char>>(None),
        ) <==> {
            &&& node(SyncQueryView::IsSynced(tip))->Synced_0 matches Ok(is_synced)
            &&& node(SyncQueryView::RpcCompatibleHash(tip))->CompatibleHash_0 matches Ok(shown)
            &&& is_synced && shown is Some || !is_synced && (node(
                SyncQueryView::Header(tip),
            )->Header_0 matches Ok(Some(header)) && header.number@ < sync_from@)
        },
{
    law_fetch_header(node, tip, sync_from, fuel);
}

/// The lookup changes nothing, always returns, and fails with the error of the first read of the
/// mapping that fails; and where both succeed, only for want of a header that is needed.
pub proof fn law_failed_lookup<N: Node>(
    node: spec_fn(SyncQueryView<N>) -> SyncReply<N>,
    tip: N::Hash,
    sync_from: U256,
    fuel: nat,
)
    requires
        answers_all(node),
        fuel >= 3,
    ensures
        ({
            let whole = fetch_run(node, fetch_start::<N>(tip, sync_from), fuel);
            let synced = node(SyncQueryView::IsSynced(tip))->Synced_0;
            let shown = node(SyncQueryView::RpcCompatibleHash(tip))->CompatibleHash_0;
            &&& whole.effects.len() == 0
            &&& whole.outcome is Some
            &&& synced matches Err(message) ==> whole.outcome == Some(
                Err::<Option<ChainHeader<N>>, Seq<char>>(message@),
            )
            &&& synced is Ok ==> (shown matches Err(message) ==> whole.outcome == Some(
                Err::<Option<ChainHeader<N>>, Seq<char>>(message@),
            ))
            &&& synced is Ok && shown is Ok ==> (whole.outcome->0 is Err <==> !(synced->Ok_0
                && shown->Ok_0 is Some) && !(node(SyncQueryView::Header(tip))->Header_0 matches Ok(
                Some(_),
            )))
            &&& synced is Ok && shown is Ok && whole.outcome->0 is Err ==> whole.outcome->0->Err_0
                == "Header not found"@
        }),
{
    law_fetch_header(node, tip, sync_from, fuel);
}

/// Where the digest gives the hashes of the Ethereum block, one entry is written. It is for this
/// chain block, it holds the very hashes that the digest gives, those of all transactions in their
/// order among them, and its shown hash is made from the block in storage: above nothing for the
/// genesis block, above the parent's shown hash for any other, and none where the block or that
/// hash is missing. The result is that of the write.
pub proof fn law_entry_from_digest_hashes<N: Node>(
    node: spec_fn(SyncQueryView<N>) -> SyncReply<N>,
    header: ChainHeader<N>,
    hashes: Hashes,
    parent_hash: Option<H256>,
    fuel: nat,
)
    requires
        answers_all(node),
        fuel >= 5,
        node(SyncQueryView::FindLog(header.digest))->Log_0 == Ok::<Log<N>, FindLogError>(
            Log::Post(PostLog::Hashes(hashes)),
        ),
        if header.number@ == 0 {
            parent_hash is None
        } else {
            node(SyncQueryView::RpcCompatibleHash(header.parent_hash))->CompatibleHash_0 == Ok::<
                Option<H256>,
                String,
            >(parent_hash)
        },
    ensures
        ({
            let whole = sync_block_run(node, sync_block_start(header), fuel);
            let stored = node(SyncQueryView::StoredBlock(header.hash))->StoredBlock_0;
            &&& whole.effects.len() == 1
            &&& whole.effects[0] matches SyncQueryView::WriteHashes(entry)
            &&& entry.block_hash == header.hash
            &&& entry.ethereum_block_hash == hashes.block_hash
            &&& entry.ethereum_transaction_hashes == hashes.transaction_hashes@
            &&& entry.rpc_compatible_block_hash is Some <==> stored is Some && (header.number@ == 0
                || parent_hash is Some)
            &&& entry.rpc_compatible_block_hash is Some ==> entry.rpc_compatible_block_hash->0
                == rpc_compatible_hash_of(stored->0.header@, parent_hash)
            &&& node(whole.effects[0])->Written_0 matches Ok(_) ==> whole.outcome == Some(
                Ok::<(), Seq<char>>(()),
            )
            &&& node(whole.effects[0])->Written_0 matches Err(message) ==> whole.outcome == Some(
                Err::<(), Seq<char>>(message@),
            )
        }),
{
    law_sync_block(node, header, fuel);
}

/// Where the digest gives the Ethereum block, or its hash and the storage a block with that hash,
/// one entry is written. It is for this chain block, it holds the hashes that belong to the
/// Ethereum block, those of all transactions in their order among them, and its shown hash is that
/// of the block above nothing for the genesis block, and above the parent's shown hash, if there is
/// one, for any other. The result is that of the write.
pub proof fn law_entry_from_ethereum_block<N: Node>(
    node: spec_fn(SyncQueryView<N>) -> SyncReply<N>,
    header: ChainHeader<N>,
    block: Block<N::Transaction>,
    parent_hash: Option<H256>,
    fuel: nat,
)
    requires
        answers_all(node),
        fuel >= 5,
        match node(SyncQueryView::FindLog(header.digest))->Log_0 {
            Ok(Log::Pre(PreLog::Block(told))) => told == block,
            Ok(Log::Post(PostLog::Block(told))) => told == block,
            Ok(Log::Post(PostLog::BlockHash(hash))) => node(
                SyncQueryView::StoredBlock(header.hash),
            )->StoredBlock_0 == Some(block) && ethereum_hash_of(block.header@) == hash,
            _ => false,
        },
        if header.number@ == 0 {
            parent_hash is None
        } else {
            node(SyncQueryView::RpcCompatibleHash(header.parent_hash))->CompatibleHash_0 == Ok::<
                Option<H256>,
                String,
            >(parent_hash)
        },
    ensures
        ({
            let whole = sync_block_run(node, sync_block_start(header), fuel);
            let hashes = node(SyncQueryView::HashesFromBlock(block))->Hashes_0;
            &&& whole.effects.len() == 1
            &&& whole.effects[0] matches SyncQueryView::WriteHashes(entry)
            &&& entry.block_hash == header.hash
            &&& entry.ethereum_block_hash == hashes.block_hash
            &&& entry.ethereum_transaction_hashes == hashes.transaction_hashes@
            &&& entry.rpc_compatible_block_hash is Some <==> header.number@ == 0 || parent_hash
                is Some
            &&& entry.rpc_compatible_block_hash is Some ==> entry.rpc_compatible_block_hash->0
                == rpc_compatible_hash_of(block.header@, parent_hash)
            &&& node(whole.effects[0])->Written_0 matches Ok(_) ==> whole.outcome == Some(
                Ok::<(), Seq<char>>(()),
            )
            &&& node(whole.effects[0])->Written_0 matches Err(message) ==> whole.outcome == Some(
                Err::<(), Seq<char>>(message@),
            )
        }),
{
    law_sync_block(node, header, fuel);
}

/// Where the digest says nothing of an Ethereum block, or gives a hash to which the storage has no
/// block, it is written that this chain block has none, and nothing else. The result is that of the
/// write.
pub proof fn law_block_without_ethereum_block<N: Node>(
    node: spec_fn(SyncQueryView<N>) -> SyncReply<N>,
    header: ChainHeader<N>,
    fuel: nat,
)
    requires
        answers_all(node),
        fuel >= 5,
        header.number@ == 0 || node(
            SyncQueryView::RpcCompatibleHash(header.parent_hash),
        )->CompatibleHash_0 is Ok,
        match node(SyncQueryView::FindLog(header.digest))->Log_0 {
            Err(FindLogError::NotFound) => true,
            Ok(Log::Post(PostLog::BlockHash(_))) => node(
                SyncQueryView::StoredBlock(header.hash),
            )->StoredBlock_0 is None,
            _ => false,
        },
    ensures
        ({
            let whole = sync_block_run(node, sync_block_start(header), fuel);
            &&& whole.effects == seq![SyncQueryView::<N>::WriteNone(header.hash)]
            &&& node(whole.effects[0])->Written_0 matches Ok(_) ==> whole.outcome == Some(
                Ok::<(), Seq<char>>(()),
            )
            &&& node(whole.effects[0])->Written_0 matches Err(message) ==> whole.outcome == Some(
                Err::<(), Seq<char>>(message@),
            )
        }),
{
    law_sync_block(node, header, fuel);
}

/// A block is refused, and nothing is written, where the parent's shown hash cannot be read, where
/// the digest holds several logs, and where the block in storage has another hash than the digest
/// gives; the message says which, and in the last case gives both hashes, the digest's first.
pub proof fn law_refused_block<N: Node>(
    node: spec_fn(SyncQueryView<N>) -> SyncReply<N>,
    header: ChainHeader<N>,
    fuel: nat,
)
    requires
        answers_all(node),
        fuel >= 5,
    ensures
        ({
            let whole = sync_block_run(node, sync_block_start(header), fuel);
            let parent = node(
                SyncQueryView::RpcCompatibleHash(header.parent_hash),
            )->CompatibleHash_0;
            let unreadable = header.number@ != 0 && parent is Err;
            let log = node(SyncQueryView::FindLog(header.digest))->Log_0;
            let stored = node(SyncQueryView::StoredBlock(header.hash))->StoredBlock_0;
            &&& unreadable ==> whole.effects.len() == 0 && whole.outcome == Some(
                Err::<(), Seq<char>>(parent->Err_0@),
            )
            &&& !unreadable && log == Err::<Log<N>, FindLogError>(FindLogError::MultipleLogs)
                ==> whole.effects.len() == 0 && whole.outcome == Some(
                Err::<(), Seq<char>>("Multiple logs found"@),
            )
            &&& !unreadable && (log matches Ok(Log::Post(PostLog::BlockHash(expected))) && (stored
                matches Some(block) && ethereum_hash_of(block.header@) != expected)) ==> {
                let expected = log->Ok_0->Post_0->BlockHash_0;
                let got = ethereum_hash_of(stored->0.header@);
                &&& whole.effects.len() == 0
                &&& whole.outcome == Some(
                    Err::<(), Seq<char>>(
                        "Ethereum block hash mismatch: frontier consensus digest ("@ + full_text(
                            expected,
                        ) + "), db state ("@ + full_text(got) + ")"@,
                    ),
                )
            }
        }),
{
    law_sync_block(node, header, fuel);
}

/// The entry for the genesis block is for that block, holds the Ethereum block's own hash, the hash
/// that Ethereum clients are shown above the parent that the header names, and no transaction. The
/// Ethereum block is read in the one of two ways that belongs to the runtime's version. The result
/// is that of the write.
pub proof fn law_entry_of_genesis_block<N: Node>(
    node: spec_fn(SyncQueryView<N>) -> SyncReply<N>,
    hash: N::Hash,
    version: u32,
    block: Block<N::Transaction>,
    fuel: nat,
)
    requires
        answers_all(node),
        fuel >= 3,
        node(SyncQueryView::ApiVersion(hash))->Version_0 == Ok::<Option<u32>, String>(
            Some(version),
        ),
        version >= 2 ==> node(SyncQueryView::RuntimeBlock(hash))->RuntimeBlock_0 == Ok::<
            Option<Block<N::Transaction>>,
            String,
        >(Some(block)),
        version < 2 ==> node(SyncQueryView::LegacyRuntimeBlock(hash))->RuntimeBlock_0 == Ok::<
            Option<Block<N::Transaction>>,
            String,
        >(Some(block)),
    ensures
        ({
            let whole = sync_genesis_run(node, sync_genesis_start::<N>(hash), fuel);
            &&& whole.effects.len() == 1
            &&& whole.effects[0] matches SyncQueryView::WriteHashes(entry)
            &&& entry.block_hash == hash
            &&& entry.ethereum_block_hash == ethereum_hash_of(block.header@)
            &&& entry.rpc_compatible_block_hash == Some(rpc_compatible_hash_of(block.header@, None))
            &&& entry.ethereum_transaction_hashes.len() == 0
            &&& node(whole.effects[0])->Written_0 matches Ok(_) ==> whole.outcome == Some(
                Ok::<(), Seq<char>>(()),
            )
            &&& node(whole.effects[0])->Written_0 matches Err(message) ==> whole.outcome == Some(
                Err::<(), Seq<char>>(message@),
            )
        }),
{
    law_sync_genesis_block(node, hash, fuel);
}

/// For a genesis block without the runtime's Ethereum interface it is written that it has no
/// Ethereum block. Where the version or the block cannot be read, or there is no block, nothing is
/// written, and the message says why.
pub proof fn law_genesis_block_without_entry<N: Node>(
    node: spec_fn(SyncQueryView<N>) -> SyncReply<N>,
    hash: N::Hash,
    fuel: nat,
)
    requires
        answers_all(node),
        fuel >= 3,
    ensures
        ({
            let whole = sync_genesis_run(node, sync_genesis_start::<N>(hash), fuel);
            let version = node(SyncQueryView::ApiVersion(hash))->Version_0;
            let block = if version matches Ok(Some(version)) && version >= 2 {
                node(SyncQueryView::RuntimeBlock(hash))->RuntimeBlock_0
            } else {
                node(SyncQueryView::LegacyRuntimeBlock(hash))->RuntimeBlock_0
            };
            &&& version matches Err(message) ==> whole.effects.len() == 0 && whole.outcome == Some(
                Err::<(), Seq<char>>(message@),
            )
            &&& version == Ok::<Option<u32>, String>(None) ==> {
                &&& whole.effects == seq![SyncQueryView::<N>::WriteNone(hash)]
                &&& node(whole.effects[0])->Written_0 matches Ok(_) ==> whole.outcome == Some(
                    Ok::<(), Seq<char>>(()),
                )
                &&& node(whole.effects[0])->Written_0 matches Err(message) ==> whole.outcome
                    == Some(Err::<(), Seq<char>>(message@))
            }
            &&& version matches Ok(Some(_)) ==> (block matches Err(message) ==> whole.effects.len()
                == 0 && whole.outcome == Some(Err::<(), Seq<char>>(message@)))
            &&& version matches Ok(Some(_)) ==> (block matches Ok(None) ==> whole.effects.len()
                == 0 && whole.outcome == Some(
                Err::<(), Seq<char>>("Ethereum genesis block not found"@),
            ))
        }),
{
    law_sync_genesis_block(node, hash, fuel);
}

} // verus!

//! That what is mapped and what clients are shown agree.

use vstd::prelude::*;

use crate::block::Block;
use crate::eth::hash::RPC_COMPATIBLE_HASH_DERIVATION_LIMIT;
use crate::eth::hash_laws::{block, cached, derived, hash_of, position, stored};
use crate::eth::queries::{
    forced_parent, only_caches_change, ChainPosition, EthQueryView, EthReply,
};
use crate::eth::rich::{built, Material, RichBlockView};
use crate::hashing::rpc_compatible_hash_of;
use crate::machine::at;
use crate::node::Node;
use crate::primitives::H256;
use crate::sync::commit::due_entry;
use crate::sync::queries::{
    ChainHeader, CommitmentView, Log, PostLog, PreLog, SyncQueryView, SyncReply,
};

verus! {

/// The Ethereum block from which the entry for a chain block is made.
pub open spec fn mapped_block<N: Node<Hash = H256>>(
    node: spec_fn(SyncQueryView<N>) -> SyncReply<N>,
    header: ChainHeader<N>,
) -> Option<Block<N::Transaction>> {
    match node(SyncQueryView::FindLog(header.digest))->Log_0 {
        Ok(Log::Pre(PreLog::Block(block))) => Some(block),
        Ok(Log::Post(PostLog::Block(block))) => Some(block),
        Ok(Log::Post(_)) => node(SyncQueryView::StoredBlock(header.hash))->StoredBlock_0,
        Err(_) => None,
    }
}

/// The hash that the mapping holds for the parent when the chain block is mapped.
pub open spec fn mapped_parent_hash<N: Node<Hash = H256>>(
    node: spec_fn(SyncQueryView<N>) -> SyncReply<N>,
    header: ChainHeader<N>,
) -> Option<H256> {
    match node(SyncQueryView::RpcCompatibleHash(header.parent_hash))->CompatibleHash_0 {
        Ok(hash) => hash,
        Err(_) => None,
    }
}

/// The place of the chain block with the header.
pub open spec fn place_of<N: Node<Hash = H256>>(header: ChainHeader<N>) -> ChainPosition {
    ChainPosition { number: header.number, parent_hash: header.parent_hash }
}

/// The hash that is mapped for a chain block is the one that would be derived for it: if the block
/// and its place read the same, no parent hash is forced, and the hash that is derived for the
/// parent is the one that is mapped for it.
pub proof fn law_mapped_hash_is_the_derived_one<N: Node<Hash = H256>>(
    sync_node: spec_fn(SyncQueryView<N>) -> SyncReply<N>,
    eth_node: spec_fn(EthQueryView<N>) -> EthReply<N>,
    forced: Option<Map<H256, H256>>,
    header: ChainHeader<N>,
    entry: CommitmentView<H256>,
)
    requires
        due_entry(sync_node, header) == Ok::<SyncQueryView<N>, Seq<char>>(
            SyncQueryView::WriteHashes(entry),
        ),
        entry.rpc_compatible_block_hash is Some,
        block(eth_node, header.hash) == mapped_block(sync_node, header),
        position(eth_node, header.hash) == Some(place_of(header)),
        forced_parent(forced, header.hash) is None,
        stored(eth_node, header.hash) is None,
        cached(eth_node, header.hash) is None,
        header.number@ != 0 ==> derived(
            eth_node,
            forced,
            header.parent_hash,
            (RPC_COMPATIBLE_HASH_DERIVATION_LIMIT - 1) as nat,
        ).hash == mapped_parent_hash(sync_node, header),
    ensures
        hash_of(eth_node, forced, header.hash).hash == entry.rpc_compatible_block_hash,
{
}

/// A block that was mapped is shown as a link of a chain: its hash is the mapped one, and that is
/// the hash of its header with the parent in it that is shown. The parent hash must not be forced,
/// and what is mapped for the parent must still be there.
pub proof fn law_mapped_block_links_to_shown_parent<N: Node<Hash = H256>>(
    sync_node: spec_fn(SyncQueryView<N>) -> SyncReply<N>,
    eth_node: spec_fn(Seq<EthQueryView<N>>, EthQueryView<N>) -> EthReply<N>,
    past: Seq<EthQueryView<N>>,
    forced: Option<Map<H256, H256>>,
    header: ChainHeader<N>,
    entry: CommitmentView<H256>,
    material: Material<N>,
)
    requires
        only_caches_change(eth_node),
        due_entry(sync_node, header) == Ok::<SyncQueryView<N>, Seq<char>>(
            SyncQueryView::WriteHashes(entry),
        ),
        entry.rpc_compatible_block_hash is Some,
        header.number@ != 0,
        mapped_block(sync_node, header) == Some(material.block),
        material.chain_hash == header.hash,
        position(at(eth_node, past), header.hash) == Some(place_of(header)),
        forced_parent(forced, header.hash) is None,
        stored(at(eth_node, past), header.hash) == entry.rpc_compatible_block_hash,
        stored(at(eth_node, past), header.parent_hash) == mapped_parent_hash(sync_node, header),
    ensures
        built(eth_node, past, forced, material).outcome matches Some(
            RichBlockView::WithParentHash(parts, parent_hash),
        ) && parts.hash == entry.rpc_compatible_block_hash && parent_hash == mapped_parent_hash(
            sync_node,
            header,
        ) && parent_hash is Some && parts.hash == Some(
            rpc_compatible_hash_of(material.block.header@, parent_hash),
        ),
{
}

} // verus!

//! The Ethereum side of a chain whose own blocks have another format.
//!
//! Each chain block may hold an Ethereum block. [`sync`] fills the mapping from Ethereum hashes to
//! chain blocks; [`eth`] answers Ethereum clients that ask for blocks. Clients know a block by a
//! hash of its own kind, which [`hashing`] defines.
//!
//! All reading and writing is left to the node: an operation hands out a query, waits in a state
//! for the reply, and is resumed with it. [`machine`] says what a whole operation amounts to for a
//! given node; the laws of each module say so directly. [`agreement`] relates the two sides.

pub mod agreement;
pub mod block;
pub mod eth;
pub mod hashing;
pub mod machine;
pub mod node;
pub mod primitives;
pub mod sync;
pub mod table;
pub mod text;

pub use block::{Block, Header};
pub use eth::by_hash::{BlockByHash, TransactionCountByHash};
pub use eth::by_number::{BlockByNumber, TransactionCountByNumber};
pub use eth::hash::{RpcCompatibleHash, RpcCompatibleParentHash};
pub use eth::info::InfoByRpcHash;
pub use eth::queries::{
    BlockInfo, BlockNumberOrHash, ChainPosition, Eth, EthQuery, EthReply, RpcError,
    TransactionStatus,
};
pub use eth::receipts::BlockReceipts;
pub use eth::rich::{RichBlock, RichBlockParts};
pub use hashing::rpc_compatible_block_hash;
pub use machine::Step;
pub use node::Node;
pub use primitives::{H256, U256};
pub use sync::commit::{sync_block, SyncBlock};
pub use sync::fetch::{fetch_header, FetchHeader};
pub use sync::genesis::{sync_genesis_block, SyncGenesisBlock};
pub use sync::queries::{
    ChainHeader, EthereumBlockNotification, FindLogError, Hashes, Log, MappingCommitment, PostLog,
    PreLog, SyncQuery, SyncReply, SyncStrategy,
};
pub use sync::round::{sync_one_block, SyncOneBlock};
pub use sync::rounds::{sync_blocks, SyncBlocks};
pub use table::HashTable;

//! The values of the surrounding node that pass through this library unread.

use vstd::prelude::*;

verus! {

/// The types of the values that a node hands in and gets back as they are.
pub trait Node {
    /// The hash of a chain block.
    type Hash: Copy + PartialEq;

    /// A transaction of an Ethereum block.
    type Transaction;

    /// The digest of a chain header.
    type Digest;

    /// What a transaction status holds besides the transaction's hash and index.
    type StatusDetails;

    /// What is known of an Ethereum block besides what this library reads.
    type InfoDetails;

    /// A block number or hash that a client asks for, other than the pending block.
    type BlockTag;

    /// The node's own way to point at a block.
    type BlockId;

    /// A transaction of the chain's own format.
    type Extrinsic;

    /// The receipt of an Ethereum transaction.
    type Receipt;

    /// An error that the node reports to a client.
    type Error;
}

} // verus!

//! The two hashes of an Ethereum block: the one that its header has by itself, and the one
//! that is shown to Ethereum clients.

use vstd::prelude::*;

use crate::block::{Block, Header, HeaderView};
use crate::primitives::{lemma_same_bytes_same_hash, H256};

verus! {

/// The Keccak-256 digest of `data`.
pub uninterp spec fn keccak256(data: Seq<u8>) -> Seq<u8>;

/// The RLP encoding of an Ethereum header.
pub uninterp spec fn header_rlp(header: HeaderView) -> Seq<u8>;

/// `sp_core::hashing::keccak_256` returns the Keccak-256 digest of the bytes that it is given.
#[allow(deprecated)]
#[verifier::external_body]
fn keccak_256(data: &Vec<u8>) -> (digest: H256)
    ensures
        digest@ == keccak256(data@),
{
    H256(sp_core::hashing::keccak_256(data))
}

/// `rlp::encode` returns the RLP encoding of an `ethereum::Header` that holds the same fields.
#[verifier::external_body]
fn rlp_encode(h: &Header) -> (bytes: Vec<u8>)
    ensures
        bytes@ == header_rlp(h@),
{
    rlp::encode(&ethereum::Header {
        parent_hash: h.parent_hash.0.into(), ommers_hash: h.ommers_hash.0.into(),
        beneficiary: h.beneficiary.into(), state_root: h.state_root.0.into(),
        transactions_root: h.transactions_root.0.into(), receipts_root: h.receipts_root.0.into(),
        logs_bloom: h.logs_bloom.into(), difficulty: ethereum_types::U256(h.difficulty.0),
        number: ethereum_types::U256(h.number.0), gas_limit: ethereum_types::U256(h.gas_limit.0),
        gas_used: ethereum_types::U256(h.gas_used.0), timestamp: h.timestamp,
        extra_data: h.extra_data.clone(), mix_hash: h.mix_hash.0.into(), nonce: h.nonce.into(),
    }).to_vec()
}

/// `ethereum::Header::hash` returns the Keccak-256 digest of the header's RLP encoding.
#[verifier::external_body]
fn header_hash(h: &Header) -> (hash: H256)
    ensures
        hash@ == keccak256(header_rlp(h@)),
{
    let header = ethereum::Header {
        parent_hash: h.parent_hash.0.into(), ommers_hash: h.ommers_hash.0.into(),
        beneficiary: h.beneficiary.into(), state_root: h.state_root.0.into(),
        transactions_root: h.transactions_root.0.into(), receipts_root: h.receipts_root.0.into(),
        logs_bloom: h.logs_bloom.into(), difficulty: ethereum_types::U256(h.difficulty.0),
        number: ethereum_types::U256(h.number.0), gas_limit: ethereum_types::U256(h.gas_limit.0),
        gas_used: ethereum_types::U256(h.gas_used.0), timestamp: h.timestamp,
        extra_data: h.extra_data.clone(), mix_hash: h.mix_hash.0.into(), nonce: h.nonce.into(),
    };
    H256(header.hash().0)
}

/// The hash whose bytes are the Keccak-256 digest of `data`.
pub open spec fn digest_of(data: Seq<u8>) -> H256 {
    choose|hash: H256| hash@ == keccak256(data)
}

/// The hash that an Ethereum header has by itself.
pub open spec fn ethereum_hash_of(header: HeaderView) -> H256 {
    digest_of(header_rlp(header))
}

/// The header that Ethereum clients are shown: its timestamp is in seconds in place of
/// milliseconds, and it points to `parent_hash` where there is one.
pub open spec fn rpc_compatible_header(header: HeaderView, parent_hash: Option<H256>) -> HeaderView {
    HeaderView {
        parent_hash: match parent_hash {
            Some(hash) => hash,
            None => header.parent_hash,
        },
        timestamp: (header.timestamp / 1000) as u64,
        ..header
    }
}

/// The hash of the header that Ethereum clients are shown.
pub open spec fn rpc_compatible_hash_of(header: HeaderView, parent_hash: Option<H256>) -> H256 {
    digest_of(header_rlp(rpc_compatible_header(header, parent_hash)))
}

impl Header {
    /// The hash that the header has by itself.
    pub fn hash(&self) -> (hash: H256)
        ensures
            hash == ethereum_hash_of(self@),
            hash@ == keccak256(header_rlp(self@)),
    {
        let hash = header_hash(self);
        proof {
            lemma_same_bytes_same_hash(hash, ethereum_hash_of(self@));
        }
        hash
    }
}

/// The hash under which Ethereum clients know a block whose parent they know as `parent_hash`;
/// without a `parent_hash`, the block keeps the parent that its header names.
pub fn rpc_compatible_block_hash<T>(block: &Block<T>, parent_hash: Option<H256>) -> (hash: H256)
    ensures
        hash == rpc_compatible_hash_of(block.header@, parent_hash),
        hash@ == keccak256(
            header_rlp(
                HeaderView {
                    parent_hash: if parent_hash is Some {
                        parent_hash->0
                    } else {
                        block.header@.parent_hash
                    },
                    timestamp: (block.header@.timestamp / 1000) as u64,
                    ..block.header@
                },
            ),
        ),
{
    let mut header = block.header.clone();
    if let Some(parent_hash) = parent_hash {
        header.parent_hash = parent_hash;
    }
    header.timestamp = header.timestamp / 1000;
    let hash = keccak_256(&rlp_encode(&header));
    proof {
        assert(header@ == rpc_compatible_header(block.header@, parent_hash));
        lemma_same_bytes_same_hash(hash, rpc_compatible_hash_of(block.header@, parent_hash));
    }
    hash
}

/// What Ethereum clients know a block as depends on the parent that they are shown alone, not on
/// the one that the header names.
pub proof fn law_given_parent_replaces_own(header: HeaderView, own: H256, parent_hash: H256)
    ensures
        rpc_compatible_hash_of(HeaderView { parent_hash: own, ..header }, Some(parent_hash))
            == rpc_compatible_hash_of(header, Some(parent_hash)),
{
}

/// To give the parent that the header names is the same as to give none.
pub proof fn law_own_parent_is_the_default(header: HeaderView)
    ensures
        rpc_compatible_hash_of(header, Some(header.parent_hash)) == rpc_compatible_hash_of(
            header,
            None,
        ),
{
}

/// Two blocks that differ in the milliseconds of their timestamps alone are the same to Ethereum
/// clients.
pub proof fn law_milliseconds_do_not_show(
    header: HeaderView,
    timestamp: u64,
    parent_hash: Option<H256>,
)
    requires
        timestamp / 1000 == header.timestamp / 1000,
    ensures
        rpc_compatible_hash_of(HeaderView { timestamp, ..header }, parent_hash)
            == rpc_compatible_hash_of(header, parent_hash),
{
}

/// The hash that Ethereum clients are shown is the one that the header would have by itself, were
/// its timestamp in seconds and its parent the one that they are shown.
pub proof fn law_shown_hash_is_that_of_shown_header(
    header: HeaderView,
    parent_hash: Option<H256>,
)
    ensures
        rpc_compatible_hash_of(header, parent_hash) == ethereum_hash_of(
            rpc_compatible_header(header, parent_hash),
        ),
        header.timestamp == 0 && (parent_hash is None || parent_hash == Some(header.parent_hash))
            ==> rpc_compatible_hash_of(header, parent_hash) == ethereum_hash_of(header),
{
}

} // verus!

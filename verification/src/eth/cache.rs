//! The caches of hashes.

use vstd::prelude::*;

use crate::eth::queries::{Eth, EthQueryView};
use crate::node::Node;
use crate::primitives::H256;
use crate::table::HashTable;

verus! {

/// How many entries each cache may hold.
pub const RPC_COMPATIBLE_HASH_CACHE_LIMIT: usize = 8192;

/// What the two caches hold: the hashes under which Ethereum clients know chain blocks, and the
/// chain blocks that they know by hashes.
pub struct CachesView {
    pub cache: Map<H256, H256>,
    pub reverse_cache: Map<H256, H256>,
}

/// One of the caches is full.
pub open spec fn is_full(cache: Map<H256, H256>, reverse_cache: Map<H256, H256>) -> bool {
    cache.len() >= RPC_COMPATIBLE_HASH_CACHE_LIMIT || reverse_cache.len()
        >= RPC_COMPATIBLE_HASH_CACHE_LIMIT
}

/// The caches once it is cached that Ethereum clients know the chain block by `compatible_hash`:
/// both hold it, besides what they held, or alone where one of them was full.
pub open spec fn with_hash(
    caches: CachesView,
    substrate_hash: H256,
    compatible_hash: H256,
) -> CachesView {
    if is_full(caches.cache, caches.reverse_cache) {
        CachesView {
            cache: Map::empty().insert(substrate_hash, compatible_hash),
            reverse_cache: Map::empty().insert(compatible_hash, substrate_hash),
        }
    } else {
        CachesView {
            cache: caches.cache.insert(substrate_hash, compatible_hash),
            reverse_cache: caches.reverse_cache.insert(compatible_hash, substrate_hash),
        }
    }
}

/// The caches after the queries.
pub open spec fn caches_after<N: Node>(
    caches: CachesView,
    past: Seq<EthQueryView<N>>,
) -> CachesView
    decreases past.len(),
{
    if past.len() == 0 {
        caches
    } else {
        let before = caches_after(caches, past.drop_last());
        match past.last() {
            EthQueryView::CacheHash(hash, compatible) => with_hash(before, hash, compatible),
            _ => before,
        }
    }
}

impl Eth {
    /// Caches that Ethereum clients know the chain block by `compatible_hash`, in both directions.
    /// Where one of the caches is full, both are emptied first.
    pub fn cache_rpc_compatible_hash(
        cache: &mut HashTable,
        reverse_cache: &mut HashTable,
        substrate_hash: H256,
        compatible_hash: H256,
    )
        ensures
            (CachesView { cache: final(cache)@, reverse_cache: final(reverse_cache)@ })
                == with_hash(
                CachesView { cache: old(cache)@, reverse_cache: old(reverse_cache)@ },
                substrate_hash,
                compatible_hash,
            ),
            old(cache)@.len() < 8192 && old(reverse_cache)@.len() < 8192 ==> final(cache)@
                == old(cache)@.insert(substrate_hash, compatible_hash) && final(reverse_cache)@
                == old(reverse_cache)@.insert(compatible_hash, substrate_hash),
            old(cache)@.len() >= 8192 || old(reverse_cache)@.len() >= 8192 ==> final(cache)@
                == Map::<H256, H256>::empty().insert(substrate_hash, compatible_hash)
                && final(reverse_cache)@ == Map::<H256, H256>::empty().insert(
                compatible_hash,
                substrate_hash,
            ),
            final(cache)@.dom().contains(substrate_hash) && final(cache)@[substrate_hash]
                == compatible_hash,
            final(reverse_cache)@.dom().contains(compatible_hash)
                && final(reverse_cache)@[compatible_hash] == substrate_hash,
            final(cache)@.len() <= RPC_COMPATIBLE_HASH_CACHE_LIMIT,
            final(reverse_cache)@.len() <= RPC_COMPATIBLE_HASH_CACHE_LIMIT,
    {
        let size: usize = cache.len();
        let reverse_size: usize = reverse_cache.len();
        if size >= RPC_COMPATIBLE_HASH_CACHE_LIMIT || reverse_size
            >= RPC_COMPATIBLE_HASH_CACHE_LIMIT {
            cache.clear();
            reverse_cache.clear();
        }
        cache.insert(substrate_hash, compatible_hash);
        reverse_cache.insert(compatible_hash, substrate_hash);
    }
}

} // verus!

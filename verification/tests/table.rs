use frontier_blocks::eth::cache::RPC_COMPATIBLE_HASH_CACHE_LIMIT;
use frontier_blocks::{Eth, HashTable, H256};

fn hash(kind: u8, number: usize) -> H256 {
    let mut bytes = [0u8; 32];
    bytes[0] = kind;
    bytes[24..32].copy_from_slice(&(number as u64).to_be_bytes());
    H256(bytes)
}

#[test]
fn table_holds_what_was_put_in_last() {
    let mut table = HashTable::new();
    assert_eq!(table.len(), 0);
    assert_eq!(table.get(&hash(1, 1)), None);
    for number in [3, 1, 2, 5, 4] {
        table.insert(hash(1, number), hash(2, number));
    }
    table.insert(hash(1, 2), hash(3, 2));
    assert_eq!(table.len(), 5);
    assert_eq!(table.get(&hash(1, 1)), Some(hash(2, 1)));
    assert_eq!(table.get(&hash(1, 2)), Some(hash(3, 2)));
    assert_eq!(table.get(&hash(1, 5)), Some(hash(2, 5)));
    assert_eq!(table.get(&hash(1, 6)), None);
    assert_eq!(table.get(&hash(0, 1)), None);
    table.clear();
    assert_eq!(table.len(), 0);
    assert_eq!(table.get(&hash(1, 1)), None);
}

#[test]
fn cached_hash_is_found_both_ways() {
    let mut cache = HashTable::new();
    let mut reverse_cache = HashTable::new();
    Eth::cache_rpc_compatible_hash(&mut cache, &mut reverse_cache, hash(1, 1), hash(2, 1));
    assert_eq!(cache.get(&hash(1, 1)), Some(hash(2, 1)));
    assert_eq!(reverse_cache.get(&hash(2, 1)), Some(hash(1, 1)));
    assert_eq!(cache.get(&hash(2, 1)), None);
    assert_eq!(reverse_cache.get(&hash(1, 1)), None);
}

#[test]
fn full_caches_are_emptied_first() {
    assert_eq!(RPC_COMPATIBLE_HASH_CACHE_LIMIT, 8192);
    let mut cache = HashTable::new();
    let mut reverse_cache = HashTable::new();
    for number in 0..8192 {
        let (own, shown) = (hash(1, number), hash(2, number));
        Eth::cache_rpc_compatible_hash(&mut cache, &mut reverse_cache, own, shown);
    }
    assert_eq!(cache.len(), 8192);
    assert_eq!(reverse_cache.len(), 8192);
    assert_eq!(cache.get(&hash(1, 0)), Some(hash(2, 0)));
    Eth::cache_rpc_compatible_hash(&mut cache, &mut reverse_cache, hash(1, 1), hash(2, 1));
    assert_eq!(cache.len(), 1);
    assert_eq!(reverse_cache.len(), 1);
    assert_eq!(cache.get(&hash(1, 0)), None);
    assert_eq!(cache.get(&hash(1, 1)), Some(hash(2, 1)));
}

#[test]
fn one_full_cache_empties_both() {
    let mut cache = HashTable::new();
    let mut reverse_cache = HashTable::new();
    for number in 0..8192 {
        Eth::cache_rpc_compatible_hash(&mut cache, &mut reverse_cache, hash(1, number), hash(2, 0));
    }
    assert_eq!(cache.len(), 8192);
    assert_eq!(reverse_cache.len(), 1);
    assert_eq!(reverse_cache.get(&hash(2, 0)), Some(hash(1, 8191)));
    Eth::cache_rpc_compatible_hash(&mut cache, &mut reverse_cache, hash(3, 0), hash(4, 0));
    assert_eq!(cache.len(), 1);
    assert_eq!(reverse_cache.len(), 1);
    assert_eq!(reverse_cache.get(&hash(2, 0)), None);
}

use frontier_blocks::{rpc_compatible_block_hash, Block, Header, H256, U256};

fn digit(c: u8) -> u8 {
    match c {
        b'0'..=b'9' => c - b'0',
        b'a'..=b'f' => c - b'a' + 10,
        _ => panic!("no hexadecimal digit"),
    }
}

fn hash(text: &str) -> H256 {
    let digits = text.as_bytes();
    assert_eq!(digits.len(), 64);
    let mut bytes = [0u8; 32];
    for i in 0..32 {
        bytes[i] = 16 * digit(digits[2 * i]) + digit(digits[2 * i + 1]);
    }
    H256(bytes)
}

const GENESIS_HASH: &str = "d4e56740f876aef8c010b86a40d5f56745a118d0906a34e69aec8c0db1cb8fa3";

/// The header of the first block of the Ethereum main network.
fn genesis_header() -> Header {
    let empty_root = hash("56e81f171bcc55a6ff8345e692c0f86e5b48e01b996cadc001622fb5e363b421");
    let extra = hash("11bbe8db4e347b4e8c937c1c8370e4b5ed33adb3db69cbdb7a38e1e50b1b82fa");
    Header {
        parent_hash: H256::zero(),
        ommers_hash: hash("1dcc4de8dec75d7aab85b567b6ccd41ad312451b948a7413f0a142fd40d49347"),
        beneficiary: [0; 20],
        state_root: hash("d7f8974fb5ac78d9ac099b9ad5018bedc2ce0a72dad1827a1709da30580f0544"),
        transactions_root: empty_root,
        receipts_root: empty_root,
        logs_bloom: [0; 256],
        difficulty: U256([17_179_869_184, 0, 0, 0]),
        number: U256::zero(),
        gas_limit: U256([5000, 0, 0, 0]),
        gas_used: U256::zero(),
        timestamp: 0,
        extra_data: extra.0.to_vec(),
        mix_hash: H256::zero(),
        nonce: [0, 0, 0, 0, 0, 0, 0, 0x42],
    }
}

fn block(header: Header) -> Block<u8> {
    Block { header, transactions: vec![1, 2, 3], ommers: Vec::new() }
}

#[test]
fn header_hash_of_main_network_genesis() {
    assert_eq!(genesis_header().hash(), hash(GENESIS_HASH));
}

#[test]
fn every_field_counts_in_header_hash() {
    let known = genesis_header().hash();
    let mut changed: Vec<Header> = (0..15).map(|_| genesis_header()).collect();
    changed[0].parent_hash.0[31] = 1;
    changed[1].ommers_hash.0[0] = 1;
    changed[2].beneficiary[19] = 1;
    changed[3].state_root.0[0] = 1;
    changed[4].transactions_root.0[0] = 1;
    changed[5].receipts_root.0[0] = 1;
    changed[6].logs_bloom[255] = 1;
    changed[7].difficulty.0[3] = 1;
    changed[8].number.0[0] = 1;
    changed[9].gas_limit.0[1] = 1;
    changed[10].gas_used.0[2] = 1;
    changed[11].timestamp = 1;
    changed[12].extra_data.push(0);
    changed[13].mix_hash.0[0] = 1;
    changed[14].nonce[0] = 1;
    for header in &changed {
        assert_ne!(header.hash(), known);
    }
}

#[test]
fn shown_hash_without_timestamp_is_own_hash() {
    assert_eq!(rpc_compatible_block_hash(&block(genesis_header()), None), hash(GENESIS_HASH));
}

#[test]
fn milliseconds_do_not_show() {
    let mut header = genesis_header();
    header.timestamp = 999;
    assert_eq!(rpc_compatible_block_hash(&block(header), None), hash(GENESIS_HASH));
    let mut header = genesis_header();
    header.timestamp = 1000;
    assert_ne!(rpc_compatible_block_hash(&block(header), None), hash(GENESIS_HASH));
}

#[test]
fn given_parent_replaces_own() {
    let mut header = genesis_header();
    header.parent_hash = H256([7; 32]);
    assert_ne!(rpc_compatible_block_hash(&block(header.clone()), None), hash(GENESIS_HASH));
    assert_eq!(
        rpc_compatible_block_hash(&block(header), Some(H256::zero())),
        hash(GENESIS_HASH)
    );
}

#[test]
fn own_parent_is_the_default() {
    let mut header = genesis_header();
    header.parent_hash = H256([7; 32]);
    header.timestamp = 1_700_000_000_123;
    assert_eq!(
        rpc_compatible_block_hash(&block(header.clone()), Some(H256([7; 32]))),
        rpc_compatible_block_hash(&block(header), None)
    );
}

#[test]
fn shown_hash_is_that_of_shown_header() {
    let mut header = genesis_header();
    header.timestamp = 1_700_000_000_123;
    let mut shown = header.clone();
    shown.timestamp = 1_700_000_000;
    shown.parent_hash = H256([9; 32]);
    assert_eq!(rpc_compatible_block_hash(&block(header), Some(H256([9; 32]))), shown.hash());
}

#[test]
fn transactions_do_not_count_in_shown_hash() {
    let other: Block<u8> =
        Block { header: genesis_header(), transactions: Vec::new(), ommers: Vec::new() };
    assert_eq!(rpc_compatible_block_hash(&other, None), hash(GENESIS_HASH));
}

#[test]
fn equal_bytes_are_equal_hashes() {
    assert_eq!(H256([1; 32]), H256::from_slice(&[1; 32]));
    assert_ne!(H256([1; 32]), H256::zero());
    let mut last = [1; 32];
    last[31] = 2;
    assert_ne!(H256([1; 32]), H256(last));
}

#[test]
fn number_of_a_count() {
    assert_eq!(U256::from_usize(5).0, [5, 0, 0, 0]);
    assert_eq!(U256::zero().0, [0, 0, 0, 0]);
}

#[test]
fn numbers_compare_from_the_highest_limb_down() {
    let ascending = [
        [0, 0, 0, 0],
        [1, 0, 0, 0],
        [u64::MAX, 0, 0, 0],
        [0, 1, 0, 0],
        [5, 1, 0, 0],
        [0, 0, 1, 0],
        [u64::MAX, u64::MAX, u64::MAX, 0],
        [0, 0, 0, 1],
    ];
    for (i, one) in ascending.iter().enumerate() {
        assert_eq!(U256(*one).is_zero(), i == 0);
        for (j, other) in ascending.iter().enumerate() {
            assert_eq!(U256(*one).is_less(&U256(*other)), i < j);
        }
    }
}

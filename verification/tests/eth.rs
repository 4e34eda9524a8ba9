use std::cell::RefCell;

use frontier_blocks::{
    rpc_compatible_block_hash, Block, BlockByHash, BlockByNumber, BlockInfo, BlockNumberOrHash,
    BlockReceipts, ChainPosition, Eth, EthQuery, EthReply, HashTable, Header, InfoByRpcHash, Node,
    RichBlock, RpcCompatibleHash, RpcCompatibleParentHash, RpcError, Step, TransactionCountByHash,
    TransactionCountByNumber, TransactionStatus, H256, U256,
};

struct Plain;

impl Node for Plain {
    type Hash = H256;
    type Transaction = u8;
    type Digest = u8;
    type StatusDetails = u8;
    type InfoDetails = u64;
    type BlockTag = u64;
    type BlockId = u64;
    type Extrinsic = u8;
    type Receipt = (H256, usize);
    type Error = &'static str;
}

fn hash(kind: u8, number: u64) -> H256 {
    let mut bytes = [0u8; 32];
    bytes[0] = kind;
    bytes[24..32].copy_from_slice(&number.to_be_bytes());
    H256(bytes)
}

/// The hash of the chain block with the number.
fn own(number: u64) -> H256 {
    hash(1, number)
}

/// The Ethereum block at the chain block with the number.
fn ethereum_block(number: u64) -> Block<u8> {
    Block {
        header: Header {
            parent_hash: hash(9, number),
            ommers_hash: H256::zero(),
            beneficiary: [0; 20],
            state_root: H256::zero(),
            transactions_root: H256::zero(),
            receipts_root: H256::zero(),
            logs_bloom: [0; 256],
            difficulty: U256::zero(),
            number: U256::from_usize(number as usize),
            gas_limit: U256::zero(),
            gas_used: U256::zero(),
            timestamp: 1_700_000_000_000 + number,
            extra_data: Vec::new(),
            mix_hash: H256::zero(),
            nonce: [0; 8],
        },
        transactions: vec![1, 2, 3],
        ommers: Vec::new(),
    }
}

/// The hash under which Ethereum clients know the block with the number.
fn shown(number: u64) -> H256 {
    let mut parent = None;
    for i in 0..=number {
        parent = Some(rpc_compatible_block_hash(&ethereum_block(i), parent));
    }
    parent.unwrap()
}

fn statuses() -> Vec<TransactionStatus<Plain>> {
    (0..3)
        .map(|index| TransactionStatus {
            transaction_hash: hash(4, index as u64),
            transaction_index: index,
            details: 7,
        })
        .collect()
}

fn info(number: u64) -> BlockInfo<Plain> {
    BlockInfo {
        block: Some(ethereum_block(number)),
        statuses: Some(statuses()),
        substrate_hash: own(number),
        base_fee: U256([100 + number, 0, 0, 0]),
        details: Some(1000 + number),
    }
}

/// A node with the chain blocks up to `last`.
struct Chain {
    last: u64,
    stored: Vec<(H256, H256)>,
    stored_fails: bool,
    cache: RefCell<HashTable>,
    reverse_cache: RefCell<HashTable>,
    caching: RefCell<Vec<(H256, H256)>>,
    blockless: Vec<u64>,
    mapped: Result<Option<Vec<H256>>, String>,
    not_canon: Vec<H256>,
    own_info: Vec<(H256, u64)>,
    info_error: Option<&'static str>,
    info_without_block: Vec<H256>,
    ids: Result<Option<u64>, &'static str>,
    ready: Vec<u8>,
    future: Vec<u8>,
    pending: Option<(bool, bool)>,
    gas_price: Result<u64, ()>,
    has_statuses: bool,
    missing_receipt: Option<usize>,
    failing_receipt: Option<usize>,
    handed_in: RefCell<Vec<u8>>,
}

impl Chain {
    fn new(last: u64) -> Chain {
        Chain {
            last,
            stored: Vec::new(),
            stored_fails: false,
            cache: RefCell::new(HashTable::new()),
            reverse_cache: RefCell::new(HashTable::new()),
            caching: RefCell::new(Vec::new()),
            blockless: Vec::new(),
            mapped: Ok(None),
            not_canon: Vec::new(),
            own_info: Vec::new(),
            info_error: None,
            info_without_block: Vec::new(),
            ids: Ok(None),
            ready: vec![1, 2],
            future: vec![3],
            pending: Some((true, true)),
            gas_price: Ok(55),
            has_statuses: true,
            missing_receipt: None,
            failing_receipt: None,
            handed_in: RefCell::new(Vec::new()),
        }
    }

    fn number_of(&self, hash: H256) -> Option<u64> {
        let mut bytes = [0u8; 8];
        bytes.copy_from_slice(&hash.0[24..32]);
        let number = u64::from_be_bytes(bytes);
        if hash == own(number) && number <= self.last {
            Some(number)
        } else {
            None
        }
    }

    fn info_at(&self, hash: H256) -> Result<BlockInfo<Plain>, &'static str> {
        if let Some(error) = self.info_error {
            return Err(error);
        }
        let mut found = match self.number_of(hash) {
            Some(number) => info(number),
            None => BlockInfo::unknown(),
        };
        if self.info_without_block.contains(&hash) {
            found.block = None;
        }
        if !self.has_statuses {
            found.statuses = None;
        }
        Ok(found)
    }

    fn answer(&self, query: EthQuery<Plain>) -> EthReply<Plain> {
        match query {
            EthQuery::StoredHash(hash) => {
                if self.stored_fails {
                    return EthReply::StoredHash(Err(()));
                }
                let found = self.stored.iter().find(|(key, _)| *key == hash).map(|(_, value)| *value);
                EthReply::StoredHash(Ok(found))
            }
            EthQuery::CachedHash(hash) => EthReply::CachedHash(self.cache.borrow().get(&hash)),
            EthQuery::CachedChainHash(hash) => {
                EthReply::CachedHash(self.reverse_cache.borrow().get(&hash))
            }
            EthQuery::Position(hash) => {
                EthReply::Position(Ok(self.number_of(hash).map(|number| ChainPosition {
                    number: U256::from_usize(number as usize),
                    parent_hash: if number == 0 { H256::zero() } else { own(number - 1) },
                })))
            }
            EthQuery::CurrentBlock(hash) => EthReply::Block(
                self.number_of(hash)
                    .filter(|number| !self.blockless.contains(number))
                    .map(ethereum_block),
            ),
            EthQuery::CacheHash(hash, compatible) => {
                self.caching.borrow_mut().push((hash, compatible));
                Eth::cache_rpc_compatible_hash(
                    &mut self.cache.borrow_mut(),
                    &mut self.reverse_cache.borrow_mut(),
                    hash,
                    compatible,
                );
                EthReply::Cached
            }
            EthQuery::IsCanon(hash) => EthReply::Canon(!self.not_canon.contains(&hash)),
            EthQuery::BlockInfoByChainHash(hash) => EthReply::Info(self.info_at(hash)),
            EthQuery::MappedChainHashes(_) => EthReply::MappedChainHashes(self.mapped.clone()),
            EthQuery::BlockInfoByEthBlockHash(hash) => {
                match self.own_info.iter().find(|(key, _)| *key == hash) {
                    Some((_, number)) => EthReply::Info(self.info_at(own(*number))),
                    None => EthReply::Info(match self.info_error {
                        Some(error) => Err(error),
                        None => Ok(BlockInfo::unknown()),
                    }),
                }
            }
            EthQuery::BlockInfoByNumber(place) => match place {
                BlockNumberOrHash::Pending => EthReply::Info(Ok(BlockInfo::unknown())),
                BlockNumberOrHash::At(number) => EthReply::Info(self.info_at(own(number))),
            },
            EthQuery::NativeBlockId(_) => EthReply::Id(self.ids),
            EthQuery::ChainHashOfId(id) => EthReply::ChainHash(if id <= self.last {
                Ok(own(id))
            } else {
                Err(format!("number {}", id))
            }),
            EthQuery::CurrentStatuses(_) => {
                EthReply::Statuses(Some(statuses()).filter(|_| self.has_statuses))
            }
            EthQuery::GasPrice(_) => {
                EthReply::GasPrice(self.gas_price.map(|price| U256([price, 0, 0, 0])))
            }
            EthQuery::BestHash => EthReply::BestHash(own(self.last)),
            EthQuery::ReadyExtrinsics => EthReply::Extrinsics(self.ready.clone()),
            EthQuery::FutureExtrinsics => EthReply::Extrinsics(self.future.clone()),
            EthQuery::PendingBlock(hash, extrinsics) => {
                assert_eq!(hash, own(self.last));
                *self.handed_in.borrow_mut() = extrinsics;
                EthReply::Pending(match self.pending {
                    Some((block, with_statuses)) => Ok((
                        Some(ethereum_block(self.last + 1)).filter(|_| block),
                        Some(statuses()).filter(|_| with_statuses),
                    )),
                    None => Err(format!("chain block {}", self.last)),
                })
            }
            EthQuery::ReadyCount => EthReply::Count(self.ready.len()),
            EthQuery::TransactionReceipt(block_info, hash, index) => {
                assert!(block_info.statuses.is_some());
                assert_eq!(block_info.details, Some(1001));
                EthReply::Receipt(if self.failing_receipt == Some(index) {
                    Err("receipt failed")
                } else if self.missing_receipt == Some(index) {
                    Ok(None)
                } else {
                    Ok(Some((hash, index)))
                })
            }
        }
    }
}

fn drive<S, R>(
    chain: &Chain,
    first: Step<S, EthQuery<Plain>, R>,
    resume: impl Fn(S, EthReply<Plain>) -> Step<S, EthQuery<Plain>, R>,
) -> R {
    let mut step = first;
    loop {
        match step {
            Step::Ask(state, query) => step = resume(state, chain.answer(query)),
            Step::Done(result) => return result,
        }
    }
}

fn plain_eth() -> Eth {
    Eth { forced_parent_hashes: None }
}

fn forcing_eth(number: u64, parent_hash: H256) -> Eth {
    let mut table = HashTable::new();
    table.insert(own(number), parent_hash);
    Eth { forced_parent_hashes: Some(table) }
}

fn find_hash(chain: &Chain, eth: &Eth, hash: H256) -> Option<H256> {
    drive(chain, eth.rpc_compatible_hash(hash), |state: RpcCompatibleHash, reply| {
        state.resume(eth, reply)
    })
}

fn find_parent_hash(chain: &Chain, eth: &Eth, hash: H256) -> Option<H256> {
    drive(chain, eth.rpc_compatible_parent_hash(hash), |state: RpcCompatibleParentHash, reply| {
        state.resume(eth, reply)
    })
}

fn find_info(chain: &Chain, hash: H256) -> Result<BlockInfo<Plain>, RpcError<Plain>> {
    let step = plain_eth().block_info_by_rpc_compatible_hash(hash);
    drive(chain, step, |state: InfoByRpcHash, reply| state.resume(reply))
}

fn by_hash(chain: &Chain, hash: H256) -> Result<Option<RichBlock<Plain>>, RpcError<Plain>> {
    let eth = plain_eth();
    drive(chain, eth.block_by_hash(hash, true), |state: BlockByHash<Plain>, reply| {
        state.resume(&eth, reply)
    })
}

fn by_number(
    chain: &Chain,
    place: BlockNumberOrHash<Plain>,
) -> Result<Option<RichBlock<Plain>>, RpcError<Plain>> {
    let eth = plain_eth();
    drive(chain, eth.block_by_number(place, false), |state: BlockByNumber<Plain>, reply| {
        state.resume(&eth, reply)
    })
}

fn count_by_hash(chain: &Chain, hash: H256) -> Result<Option<U256>, RpcError<Plain>> {
    let eth = plain_eth();
    let step = eth.block_transaction_count_by_hash(hash);
    drive(chain, step, |state: TransactionCountByHash, reply| state.resume(&eth, reply))
}

fn count_by_number(
    chain: &Chain,
    place: BlockNumberOrHash<Plain>,
) -> Result<Option<U256>, RpcError<Plain>> {
    let step = plain_eth().block_transaction_count_by_number(place);
    drive(chain, step, |state: TransactionCountByNumber, reply| state.resume(reply))
}

fn receipts(
    chain: &Chain,
    place: BlockNumberOrHash<Plain>,
) -> Result<Option<Vec<(H256, usize)>>, RpcError<Plain>> {
    let step = plain_eth().block_transaction_receipts(place);
    drive(chain, step, |state: BlockReceipts<Plain>, reply| state.resume(reply))
}

fn message<A>(result: Result<A, RpcError<Plain>>) -> String {
    match result {
        Err(RpcError::Internal(message)) => message,
        Err(RpcError::Node(error)) => format!("node: {}", error),
        Ok(_) => panic!("no error"),
    }
}

fn value<A>(result: Result<A, RpcError<Plain>>) -> A {
    match result {
        Ok(value) => value,
        Err(_) => panic!("an error"),
    }
}

#[test]
fn hash_in_the_mapping_is_found_and_cached() {
    let mut chain = Chain::new(3);
    chain.stored = vec![(own(2), hash(8, 2))];
    assert_eq!(find_hash(&chain, &plain_eth(), own(2)), Some(hash(8, 2)));
    assert_eq!(*chain.caching.borrow(), vec![(own(2), hash(8, 2))]);
}

#[test]
fn hash_is_derived_from_the_genesis_block_up() {
    let mut chain = Chain::new(3);
    chain.stored_fails = true;
    assert_eq!(find_hash(&chain, &plain_eth(), own(2)), Some(shown(2)));
    assert_eq!(
        *chain.caching.borrow(),
        vec![(own(0), shown(0)), (own(1), shown(1)), (own(2), shown(2))]
    );
}

#[test]
fn hash_is_derived_from_a_cached_ancestor_up() {
    let chain = Chain::new(3);
    chain.cache.borrow_mut().insert(own(1), hash(8, 1));
    let expected = rpc_compatible_block_hash(&ethereum_block(2), Some(hash(8, 1)));
    assert_eq!(find_hash(&chain, &plain_eth(), own(2)), Some(expected));
    assert_eq!(*chain.caching.borrow(), vec![(own(2), expected)]);
}

#[test]
fn derived_hash_is_found_again_in_the_cache() {
    let mut chain = Chain::new(3);
    assert_eq!(find_hash(&chain, &plain_eth(), own(3)), Some(shown(3)));
    chain.blockless = vec![0, 1, 2, 3];
    chain.caching.borrow_mut().clear();
    assert_eq!(find_hash(&chain, &plain_eth(), own(3)), Some(shown(3)));
    assert!(chain.caching.borrow().is_empty());
}

#[test]
fn forced_parent_hash_ends_the_way_down() {
    let chain = Chain::new(3);
    let eth = forcing_eth(2, hash(8, 8));
    let second = rpc_compatible_block_hash(&ethereum_block(2), Some(hash(8, 8)));
    let third = rpc_compatible_block_hash(&ethereum_block(3), Some(second));
    assert_eq!(find_hash(&chain, &eth, own(3)), Some(third));
    assert_eq!(*chain.caching.borrow(), vec![(own(2), second), (own(3), third)]);
}

#[test]
fn forced_parent_hash_holds_for_the_genesis_block_too() {
    let chain = Chain::new(3);
    let eth = forcing_eth(0, hash(8, 8));
    let expected = rpc_compatible_block_hash(&ethereum_block(0), Some(hash(8, 8)));
    assert_eq!(find_hash(&chain, &eth, own(0)), Some(expected));
}

#[test]
fn hash_above_a_missing_block_is_not_found() {
    let mut chain = Chain::new(3);
    chain.blockless = vec![1];
    assert_eq!(find_hash(&chain, &plain_eth(), own(2)), None);
    assert_eq!(*chain.caching.borrow(), vec![(own(0), shown(0))]);
    assert_eq!(find_hash(&chain, &plain_eth(), own(7)), None);
}

#[test]
fn hash_at_the_end_of_the_way_down_is_found() {
    let chain = Chain::new(9000);
    assert_eq!(find_hash(&chain, &plain_eth(), own(8191)), Some(shown(8191)));
    assert_eq!(chain.caching.borrow().len(), 8192);
}

#[test]
fn hash_too_far_from_a_known_one_is_not_found() {
    let chain = Chain::new(9000);
    assert_eq!(find_hash(&chain, &plain_eth(), own(8192)), None);
    assert!(chain.caching.borrow().is_empty());
    chain.cache.borrow_mut().insert(own(0), shown(0));
    assert_eq!(find_hash(&chain, &plain_eth(), own(8192)), Some(shown(8192)));
}

#[test]
fn parent_hash_is_that_of_the_parent() {
    let mut chain = Chain::new(3);
    assert_eq!(find_parent_hash(&chain, &plain_eth(), own(2)), Some(shown(1)));
    chain.stored = vec![(own(1), hash(8, 1))];
    assert_eq!(find_parent_hash(&chain, &plain_eth(), own(2)), Some(hash(8, 1)));
}

#[test]
fn genesis_block_has_no_parent_hash() {
    let chain = Chain::new(3);
    assert_eq!(find_parent_hash(&chain, &plain_eth(), own(0)), None);
    assert_eq!(find_parent_hash(&chain, &plain_eth(), own(7)), None);
}

#[test]
fn forced_parent_hash_is_shown() {
    let chain = Chain::new(3);
    let eth = forcing_eth(2, hash(8, 8));
    assert_eq!(find_parent_hash(&chain, &eth, own(2)), Some(hash(8, 8)));
    assert_eq!(find_parent_hash(&chain, &eth, own(1)), Some(shown(0)));
}

#[test]
fn derived_hash_commits_to_parent_hash() {
    for eth in [plain_eth(), forcing_eth(2, hash(8, 8))] {
        let parent = find_parent_hash(&Chain::new(3), &eth, own(2));
        assert_eq!(
            find_hash(&Chain::new(3), &eth, own(2)),
            Some(rpc_compatible_block_hash(&ethereum_block(2), parent))
        );
    }
}

#[test]
fn info_is_found_by_cached_hash() {
    let chain = Chain::new(3);
    chain.reverse_cache.borrow_mut().insert(hash(8, 2), own(2));
    let found = value(find_info(&chain, hash(8, 2)));
    assert_eq!(found.substrate_hash, own(2));
    assert_eq!(found.base_fee.0, [102, 0, 0, 0]);
    assert_eq!(found.details, Some(1002));
    assert!(chain.caching.borrow().is_empty());
}

#[test]
fn info_of_the_first_canonical_block_with_an_ethereum_block_is_found() {
    let mut chain = Chain::new(3);
    chain.reverse_cache.borrow_mut().insert(hash(8, 2), own(0));
    chain.mapped = Ok(Some(vec![own(0), own(1), own(2), own(3)]));
    chain.not_canon = vec![own(0)];
    chain.info_without_block = vec![own(1)];
    let found = value(find_info(&chain, hash(8, 2)));
    assert_eq!(found.substrate_hash, own(2));
    assert_eq!(*chain.caching.borrow(), vec![(own(1), hash(8, 2)), (own(2), hash(8, 2))]);
}

#[test]
fn nothing_is_known_of_an_unmapped_hash() {
    let mut chain = Chain::new(3);
    for mapped in [None, Some(Vec::new()), Some(vec![own(1)])] {
        chain.not_canon = vec![own(1)];
        chain.mapped = Ok(mapped);
        let found = value(find_info(&chain, hash(8, 2)));
        assert!(found.block.is_none());
        assert!(found.statuses.is_none());
        assert_eq!(found.substrate_hash, H256::zero());
        assert_eq!(found.base_fee.0, [0, 0, 0, 0]);
        assert!(found.details.is_none());
    }
}

#[test]
fn failure_of_the_mapping_is_an_internal_error() {
    let mut chain = Chain::new(3);
    chain.mapped = Err("\"disk\"".to_string());
    assert_eq!(message(find_info(&chain, hash(8, 2))), "fetch aux store failed: \"disk\"");
}

#[test]
fn failure_of_the_node_is_passed_on() {
    let mut chain = Chain::new(3);
    chain.mapped = Ok(Some(vec![own(1)]));
    chain.info_error = Some("broken");
    assert_eq!(message(find_info(&chain, hash(8, 2))), "node: broken");
    assert_eq!(message(by_hash(&chain, hash(8, 2))), "node: broken");
    assert_eq!(message(count_by_hash(&chain, hash(8, 2))), "node: broken");
    assert_eq!(message(count_by_number(&chain, BlockNumberOrHash::At(1))), "node: broken");
    assert_eq!(message(receipts(&chain, BlockNumberOrHash::At(1))), "node: broken");
}

#[test]
fn block_is_found_by_own_hash() {
    let mut chain = Chain::new(3);
    chain.own_info = vec![(hash(3, 2), 2)];
    match value(by_hash(&chain, hash(3, 2))) {
        Some(RichBlock::WithParentHash(parts, parent_hash)) => {
            assert_eq!(parent_hash, Some(shown(1)));
            assert_eq!(parts.hash, Some(shown(2)));
            assert_eq!(parts.block.header.hash(), ethereum_block(2).header.hash());
            assert_eq!(parts.statuses.len(), 3);
            assert_eq!(parts.statuses[1].as_ref().unwrap().transaction_hash, hash(4, 1));
            assert!(parts.full);
            assert!(!parts.is_pending);
            assert_eq!(parts.base_fee.unwrap().0, [102, 0, 0, 0]);
            assert_eq!(
                parts.hash,
                Some(rpc_compatible_block_hash(&parts.block, parent_hash))
            );
        }
        _ => panic!("no block"),
    }
}

#[test]
fn block_is_found_by_shown_hash() {
    let mut chain = Chain::new(3);
    chain.mapped = Ok(Some(vec![own(3)]));
    chain.stored = vec![(own(3), hash(8, 3)), (own(2), hash(8, 2))];
    match value(by_hash(&chain, hash(8, 3))) {
        Some(RichBlock::WithParentHash(parts, parent_hash)) => {
            assert_eq!(parts.hash, Some(hash(8, 3)));
            assert_eq!(parent_hash, Some(hash(8, 2)));
        }
        _ => panic!("no block"),
    }
    assert_eq!(value(count_by_hash(&chain, hash(8, 3))).unwrap().0, [3, 0, 0, 0]);
}

#[test]
fn unknown_hash_is_answered_by_nothing() {
    let chain = Chain::new(3);
    assert!(value(by_hash(&chain, hash(3, 2))).is_none());
    assert!(value(count_by_hash(&chain, hash(3, 2))).is_none());
}

#[test]
fn block_without_statuses_is_not_shown_but_counted() {
    let mut chain = Chain::new(3);
    chain.own_info = vec![(hash(3, 2), 2)];
    chain.has_statuses = false;
    assert!(value(by_hash(&chain, hash(3, 2))).is_none());
    assert_eq!(value(count_by_hash(&chain, hash(3, 2))).unwrap().0, [3, 0, 0, 0]);
    chain.ids = Ok(Some(2));
    assert!(value(by_number(&chain, BlockNumberOrHash::At(2))).is_none());
}

#[test]
fn block_is_found_by_number() {
    let mut chain = Chain::new(3);
    chain.ids = Ok(Some(1));
    match value(by_number(&chain, BlockNumberOrHash::At(1))) {
        Some(RichBlock::WithParentHash(parts, parent_hash)) => {
            assert_eq!(parent_hash, Some(shown(0)));
            assert_eq!(parts.hash, Some(shown(1)));
            assert!(!parts.full);
            assert!(!parts.is_pending);
            assert_eq!(parts.base_fee.unwrap().0, [55, 0, 0, 0]);
            assert_eq!(parts.statuses.len(), 3);
        }
        _ => panic!("no block"),
    }
    chain.gas_price = Err(());
    match value(by_number(&chain, BlockNumberOrHash::At(1))) {
        Some(RichBlock::WithParentHash(parts, _)) => assert!(parts.base_fee.is_none()),
        _ => panic!("no block"),
    }
    chain.blockless = vec![1];
    assert!(value(by_number(&chain, BlockNumberOrHash::At(1))).is_none());
}

#[test]
fn unknown_place_is_answered_by_nothing() {
    let chain = Chain::new(3);
    assert!(value(by_number(&chain, BlockNumberOrHash::At(7))).is_none());
}

#[test]
fn pointer_at_no_block_is_an_internal_error() {
    let mut chain = Chain::new(3);
    chain.ids = Ok(Some(9));
    assert_eq!(
        message(by_number(&chain, BlockNumberOrHash::At(9))),
        "Expect block number from id: number 9"
    );
    chain.ids = Err("no id");
    assert_eq!(message(by_number(&chain, BlockNumberOrHash::At(9))), "node: no id");
}

#[test]
fn pending_block_is_built_of_the_pool() {
    let chain = Chain::new(3);
    match value(by_number(&chain, BlockNumberOrHash::Pending)) {
        Some(RichBlock::Plain(parts)) => {
            assert_eq!(parts.hash, None);
            assert!(parts.is_pending);
            assert!(!parts.full);
            assert_eq!(parts.block.header.number.0, [4, 0, 0, 0]);
            assert_eq!(parts.statuses.len(), 3);
            assert_eq!(parts.base_fee.unwrap().0, [55, 0, 0, 0]);
        }
        _ => panic!("no block"),
    }
    assert_eq!(*chain.handed_in.borrow(), vec![1, 2, 3]);
    assert!(chain.caching.borrow().is_empty());
}

#[test]
fn pending_block_may_be_missing() {
    let mut chain = Chain::new(3);
    for parts in [(false, true), (true, false), (false, false)] {
        chain.pending = Some(parts);
        assert!(value(by_number(&chain, BlockNumberOrHash::Pending)).is_none());
    }
}

#[test]
fn pending_block_that_fails_is_an_internal_error() {
    let mut chain = Chain::new(3);
    chain.pending = None;
    assert_eq!(
        message(by_number(&chain, BlockNumberOrHash::Pending)),
        "Runtime access error at chain block 3"
    );
}

#[test]
fn transactions_are_counted_by_number() {
    let chain = Chain::new(3);
    assert_eq!(value(count_by_number(&chain, BlockNumberOrHash::At(1))).unwrap().0, [3, 0, 0, 0]);
    assert_eq!(value(count_by_number(&chain, BlockNumberOrHash::Pending)).unwrap().0, [2, 0, 0, 0]);
    assert!(value(count_by_number(&chain, BlockNumberOrHash::At(7))).is_none());
}

#[test]
fn every_receipt_is_shown_in_order() {
    let chain = Chain::new(3);
    assert_eq!(
        value(receipts(&chain, BlockNumberOrHash::At(1))),
        Some(vec![(hash(4, 0), 0), (hash(4, 1), 1), (hash(4, 2), 2)])
    );
}

#[test]
fn missing_receipt_is_left_out() {
    let mut chain = Chain::new(3);
    chain.missing_receipt = Some(1);
    assert_eq!(
        value(receipts(&chain, BlockNumberOrHash::At(1))),
        Some(vec![(hash(4, 0), 0), (hash(4, 2), 2)])
    );
}

#[test]
fn failing_receipt_fails_all() {
    let mut chain = Chain::new(3);
    chain.missing_receipt = Some(0);
    chain.failing_receipt = Some(2);
    assert_eq!(message(receipts(&chain, BlockNumberOrHash::At(1))), "node: receipt failed");
}

#[test]
fn block_without_statuses_has_no_receipts() {
    let mut chain = Chain::new(3);
    chain.has_statuses = false;
    assert_eq!(value(receipts(&chain, BlockNumberOrHash::At(1))), None);
    assert_eq!(value(receipts(&chain, BlockNumberOrHash::At(7))), None);
}

#[test]
fn there_are_no_uncles() {
    let eth = plain_eth();
    assert_eq!(value(eth.block_uncles_count_by_hash::<Plain>(hash(3, 1))).0, [0, 0, 0, 0]);
    let place = BlockNumberOrHash::<Plain>::At(1);
    assert_eq!(value(eth.block_uncles_count_by_number(place)).0, [0, 0, 0, 0]);
    assert!(value(eth.uncle_by_block_hash_and_index::<Plain>(hash(3, 1), 0)).is_none());
    let place = BlockNumberOrHash::<Plain>::At(1);
    assert!(value(eth.uncle_by_block_number_and_index(place, 0)).is_none());
}

/// What a client is shown of a block: its hash, that of its parent, and the header's own.
fn seen(answer: Option<RichBlock<Plain>>) -> (Option<H256>, Option<H256>, H256) {
    match answer {
        Some(RichBlock::WithParentHash(parts, parent_hash)) => {
            (parts.hash, parent_hash, parts.block.header.hash())
        }
        _ => panic!("no block"),
    }
}

#[test]
fn block_is_answered_alike_under_both_hashes() {
    let answers: Vec<_> = [hash(3, 2), shown(2)]
        .iter()
        .map(|asked| {
            let mut chain = Chain::new(3);
            chain.own_info = vec![(hash(3, 2), 2)];
            chain.mapped = Ok(Some(vec![own(2)]));
            seen(value(by_hash(&chain, *asked)))
        })
        .collect();
    assert_eq!(answers[0], answers[1]);
    assert_eq!(answers[0].0, Some(shown(2)));
}

#[test]
fn search_for_the_parent_helps_the_search_for_the_block() {
    let mut chain = Chain::new(9000);
    chain.own_info = vec![(hash(3, 8192), 8192)];
    let (own_hash, parent_hash, _) = seen(value(by_hash(&chain, hash(3, 8192))));
    assert_eq!(parent_hash, Some(shown(8191)));
    assert_eq!(own_hash, Some(shown(8192)));
    assert_eq!(
        own_hash,
        Some(rpc_compatible_block_hash(&ethereum_block(8192), parent_hash))
    );
}

#[test]
fn full_caches_do_not_unlink_a_block() {
    let mut chain = Chain::new(3);
    for number in 0..8192 {
        chain.cache.borrow_mut().insert(hash(7, number), hash(8, number));
    }
    chain.own_info = vec![(hash(3, 2), 2)];
    let (own_hash, parent_hash, _) = seen(value(by_hash(&chain, hash(3, 2))));
    assert_eq!(parent_hash, Some(shown(1)));
    assert_eq!(own_hash, Some(shown(2)));
}

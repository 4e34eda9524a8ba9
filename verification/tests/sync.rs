use frontier_blocks::{
    fetch_header, rpc_compatible_block_hash, sync_block, sync_blocks, sync_genesis_block,
    sync_one_block, Block, ChainHeader, EthereumBlockNotification, FetchHeader, FindLogError,
    Hashes, Header, Log, MappingCommitment, Node, PostLog, PreLog, Step, SyncBlock, SyncBlocks,
    SyncGenesisBlock, SyncOneBlock, SyncQuery, SyncReply, SyncStrategy, H256, U256,
};

struct Plain;

impl Node for Plain {
    type Hash = [u8; 20];
    type Transaction = u8;
    type Digest = u8;
    type StatusDetails = ();
    type InfoDetails = ();
    type BlockTag = u64;
    type BlockId = u64;
    type Extrinsic = u8;
    type Receipt = u8;
    type Error = String;
}

fn hash(kind: u8, number: u8) -> H256 {
    let mut bytes = [0u8; 32];
    bytes[0] = kind;
    bytes[31] = number;
    H256(bytes)
}

/// The hash of the chain block with the number.
fn own(number: u8) -> [u8; 20] {
    other(1, number)
}

fn other(kind: u8, number: u8) -> [u8; 20] {
    let mut bytes = [0u8; 20];
    bytes[0] = kind;
    bytes[19] = number;
    bytes
}

/// The Ethereum block at the chain block with the number.
fn ethereum_block(number: u8) -> Block<u8> {
    Block {
        header: Header {
            parent_hash: hash(9, number),
            ommers_hash: H256::zero(),
            beneficiary: [0; 20],
            state_root: H256::zero(),
            transactions_root: H256::zero(),
            receipts_root: H256::zero(),
            logs_bloom: [0; 256],
            difficulty: U256::zero(),
            number: U256::from_usize(number as usize),
            gas_limit: U256::zero(),
            gas_used: U256::zero(),
            timestamp: 1_700_000_000_000 + number as u64,
            extra_data: Vec::new(),
            mix_hash: H256::zero(),
            nonce: [0; 8],
        },
        transactions: vec![number, number],
        ommers: Vec::new(),
    }
}

/// The hash under which Ethereum clients know the block with the number.
fn shown(number: u8) -> H256 {
    let parent = if number == 0 { None } else { Some(shown(number - 1)) };
    rpc_compatible_block_hash(&ethereum_block(number), parent)
}

#[derive(Clone, Copy, PartialEq)]
enum Say {
    PreBlock,
    PostHashes,
    PostBlock,
    PostBlockHash,
    PostWrongBlockHash,
    NotFound,
    MultipleLogs,
}

/// A node with the chain blocks up to `last`, whose digests all say the same.
struct Chain {
    last: u8,
    say: Say,
    has_stored_block: bool,
    version: Result<Option<u32>, String>,
    tips: Vec<[u8; 20]>,
    entries: Vec<MappingCommitment<[u8; 20]>>,
    empty_entries: Vec<[u8; 20]>,
    best: u8,
    sinks: Vec<bool>,
    is_major_syncing: bool,
    news: Vec<(usize, EthereumBlockNotification<[u8; 20]>)>,
    fail: Option<&'static str>,
    writes: Vec<&'static str>,
    asked: Vec<&'static str>,
}

impl Chain {
    fn new(last: u8) -> Chain {
        Chain {
            last,
            say: Say::PostBlock,
            has_stored_block: true,
            version: Ok(Some(5)),
            tips: Vec::new(),
            entries: Vec::new(),
            empty_entries: Vec::new(),
            best: last,
            sinks: Vec::new(),
            is_major_syncing: false,
            news: Vec::new(),
            fail: None,
            writes: Vec::new(),
            asked: Vec::new(),
        }
    }

    fn number_of(&self, hash: [u8; 20]) -> Option<u8> {
        (0..=self.last).find(|number| own(*number) == hash)
    }

    fn header(&self, number: u8) -> ChainHeader<Plain> {
        ChainHeader {
            hash: own(number),
            number: U256::from_usize(number as usize),
            parent_hash: if number == 0 { [0; 20] } else { own(number - 1) },
            digest: number,
        }
    }

    fn entry(&self, hash: [u8; 20]) -> Option<&MappingCommitment<[u8; 20]>> {
        self.entries.iter().rev().find(|entry| entry.block_hash == hash)
    }

    fn shown_hash(&self, hash: [u8; 20]) -> Option<H256> {
        self.entry(hash).and_then(|entry| entry.rpc_compatible_block_hash)
    }

    fn map(&mut self, number: u8, rpc_compatible_block_hash: Option<H256>) {
        self.entries.push(MappingCommitment {
            block_hash: own(number),
            ethereum_block_hash: H256::zero(),
            rpc_compatible_block_hash,
            ethereum_transaction_hashes: Vec::new(),
        });
    }

    fn check(&self, name: &'static str) -> Result<(), String> {
        if self.fail == Some(name) {
            Err(format!("{} failed", name))
        } else {
            Ok(())
        }
    }

    fn write(&mut self, name: &'static str) -> Result<(), String> {
        self.writes.push(name);
        self.check(name)
    }

    fn hashes(number: u8) -> Hashes {
        Hashes { block_hash: hash(5, number), transaction_hashes: vec![hash(6, number), hash(7, number)] }
    }

    fn answer(&mut self, query: SyncQuery<Plain>) -> SyncReply<Plain> {
        match query {
            SyncQuery::CurrentSyncingTips => {
                SyncReply::Tips(self.check("tips").map(|_| self.tips.clone()))
            }
            SyncQuery::Leaves => SyncReply::Tips(self.check("leaves").map(|_| vec![own(self.last)])),
            SyncQuery::IsSynced(hash) => {
                let known = self.entry(hash).is_some() || self.empty_entries.contains(&hash);
                SyncReply::Synced(self.check("synced").map(|_| known))
            }
            SyncQuery::RpcCompatibleHash(hash) => {
                SyncReply::CompatibleHash(self.check("shown").map(|_| self.shown_hash(hash)))
            }
            SyncQuery::Header(hash) => match self.check("header") {
                Ok(_) => {
                    SyncReply::Header(Ok(self.number_of(hash).map(|number| self.header(number))))
                }
                Err(_) => SyncReply::Header(Err(())),
            },
            SyncQuery::WriteCurrentSyncingTips(tips) => {
                let result = self.write("tips write");
                self.tips = tips;
                SyncReply::Written(result)
            }
            SyncQuery::BestNumber => SyncReply::Number(U256::from_usize(self.best as usize)),
            SyncQuery::ApiVersion(_) => SyncReply::Version(self.version.clone()),
            SyncQuery::RuntimeBlock(_) => {
                self.asked.push("runtime block");
                SyncReply::RuntimeBlock(
                    self.check("runtime block")
                        .map(|_| Some(ethereum_block(0)).filter(|_| self.has_stored_block)),
                )
            }
            SyncQuery::LegacyRuntimeBlock(_) => {
                self.asked.push("legacy runtime block");
                SyncReply::RuntimeBlock(Ok(Some(ethereum_block(0))))
            }
            SyncQuery::FindLog(number) => SyncReply::Log(match self.say {
                Say::PreBlock => Ok(Log::Pre(PreLog::Block(ethereum_block(number)))),
                Say::PostHashes => Ok(Log::Post(PostLog::Hashes(Chain::hashes(number)))),
                Say::PostBlock => Ok(Log::Post(PostLog::Block(ethereum_block(number)))),
                Say::PostBlockHash => {
                    Ok(Log::Post(PostLog::BlockHash(ethereum_block(number).header.hash())))
                }
                Say::PostWrongBlockHash => Ok(Log::Post(PostLog::BlockHash(hash(0xab, 0xcd)))),
                Say::NotFound => Err(FindLogError::NotFound),
                Say::MultipleLogs => Err(FindLogError::MultipleLogs),
            }),
            SyncQuery::HashesFromBlock(block) => {
                SyncReply::Hashes(Chain::hashes(block.header.number.0[0] as u8))
            }
            SyncQuery::StoredBlock(hash) => {
                let number = self.number_of(hash).filter(|_| self.has_stored_block);
                SyncReply::StoredBlock(number.map(ethereum_block))
            }
            SyncQuery::WriteHashes(entry) => {
                let result = self.write("entry write");
                self.entries.push(entry);
                SyncReply::Written(result)
            }
            SyncQuery::WriteNone(hash) => {
                let result = self.write("empty entry write");
                self.empty_entries.push(hash);
                SyncReply::Written(result)
            }
            SyncQuery::LockSinks => SyncReply::SinkCount(self.sinks.len()),
            SyncQuery::IsMajorSyncing(_) => SyncReply::MajorSyncing(self.is_major_syncing),
            SyncQuery::BestHash(_) => SyncReply::Hash(own(self.best)),
            SyncQuery::Send(sink, news) => {
                self.news.push((sink, news));
                SyncReply::Sent(self.sinks[sink])
            }
            SyncQuery::RetainSinks(keep) => {
                assert_eq!(keep.len(), self.sinks.len());
                let sinks = std::mem::take(&mut self.sinks);
                self.sinks =
                    sinks.into_iter().zip(keep).filter(|(_, keep)| *keep).map(|(s, _)| s).collect();
                SyncReply::Retained
            }
        }
    }
}

fn drive<S, R>(
    chain: &mut Chain,
    first: Step<S, SyncQuery<Plain>, R>,
    resume: fn(S, SyncReply<Plain>) -> Step<S, SyncQuery<Plain>, R>,
) -> R {
    let mut step = first;
    loop {
        match step {
            Step::Ask(state, query) => step = resume(state, chain.answer(query)),
            Step::Done(result) => return result,
        }
    }
}

fn fetch(chain: &mut Chain, tip: [u8; 20], sync_from: usize) -> Result<Option<u64>, String> {
    drive(chain, fetch_header(tip, U256::from_usize(sync_from)), FetchHeader::resume)
        .map(|header| header.map(|header| header.number.0[0]))
}

fn map_block(chain: &mut Chain, number: u8) -> Result<(), String> {
    let header = chain.header(number);
    drive(chain, sync_block(header), SyncBlock::resume)
}

fn map_genesis(chain: &mut Chain) -> Result<(), String> {
    let header = chain.header(0);
    drive(chain, sync_genesis_block(&header), SyncGenesisBlock::resume)
}

fn one_round(chain: &mut Chain) -> Result<bool, String> {
    drive(chain, sync_one_block(U256::zero(), SyncStrategy::Normal), SyncOneBlock::resume)
}

fn rounds(chain: &mut Chain, limit: usize) -> Result<bool, String> {
    drive(chain, sync_blocks(limit, U256::zero(), SyncStrategy::Normal), SyncBlocks::resume)
}

#[test]
fn header_of_unmapped_block_is_fetched() {
    let mut chain = Chain::new(3);
    assert_eq!(fetch(&mut chain, own(2), 0), Ok(Some(2)));
    assert_eq!(fetch(&mut chain, own(2), 2), Ok(Some(2)));
}

#[test]
fn header_below_start_is_not_fetched() {
    let mut chain = Chain::new(3);
    assert_eq!(fetch(&mut chain, own(2), 3), Ok(None));
}

#[test]
fn header_of_mapped_block_is_not_fetched() {
    let mut chain = Chain::new(3);
    chain.map(2, Some(shown(2)));
    assert_eq!(fetch(&mut chain, own(2), 0), Ok(None));
}

#[test]
fn header_of_block_without_shown_hash_is_fetched_even_below_start() {
    let mut chain = Chain::new(3);
    chain.map(2, None);
    assert_eq!(fetch(&mut chain, own(2), 3), Ok(Some(2)));
}

#[test]
fn unknown_header_is_an_error() {
    let mut chain = Chain::new(3);
    assert_eq!(fetch(&mut chain, own(4), 0), Err("Header not found".to_string()));
    chain.fail = Some("header");
    assert_eq!(fetch(&mut chain, own(2), 0), Err("Header not found".to_string()));
}

#[test]
fn errors_of_the_mapping_stop_the_lookup() {
    let mut chain = Chain::new(3);
    chain.fail = Some("synced");
    assert_eq!(fetch(&mut chain, own(2), 0), Err("synced failed".to_string()));
    chain.fail = Some("shown");
    assert_eq!(fetch(&mut chain, own(2), 0), Err("shown failed".to_string()));
}

#[test]
fn block_from_the_digest_is_mapped() {
    for say in [Say::PreBlock, Say::PostBlock, Say::PostBlockHash] {
        let mut chain = Chain::new(1);
        chain.say = say;
        chain.map(0, Some(shown(0)));
        assert_eq!(map_block(&mut chain, 1), Ok(()));
        assert_eq!(chain.writes, vec!["entry write"]);
        let entry = &chain.entries[1];
        assert_eq!(entry.block_hash, own(1));
        assert_eq!(entry.ethereum_block_hash, hash(5, 1));
        assert_eq!(entry.rpc_compatible_block_hash, Some(shown(1)));
        assert_eq!(entry.ethereum_transaction_hashes, vec![hash(6, 1), hash(7, 1)]);
    }
}

#[test]
fn hashes_from_the_digest_are_mapped() {
    let mut chain = Chain::new(1);
    chain.say = Say::PostHashes;
    chain.map(0, Some(shown(0)));
    assert_eq!(map_block(&mut chain, 1), Ok(()));
    assert_eq!(chain.entries[1].ethereum_block_hash, hash(5, 1));
    assert_eq!(chain.entries[1].rpc_compatible_block_hash, Some(shown(1)));

    chain.has_stored_block = false;
    assert_eq!(map_block(&mut chain, 1), Ok(()));
    assert_eq!(chain.entries[2].ethereum_block_hash, hash(5, 1));
    assert_eq!(chain.entries[2].rpc_compatible_block_hash, None);
}

#[test]
fn block_whose_parent_is_not_shown_gets_no_shown_hash() {
    let mut chain = Chain::new(1);
    assert_eq!(map_block(&mut chain, 1), Ok(()));
    assert_eq!(chain.entries[0].rpc_compatible_block_hash, None);
    assert_eq!(map_block(&mut chain, 0), Ok(()));
    assert_eq!(chain.entries[1].rpc_compatible_block_hash, Some(shown(0)));
}

#[test]
fn wrong_block_hash_in_the_digest_is_an_error() {
    let mut chain = Chain::new(1);
    chain.say = Say::PostWrongBlockHash;
    let got = ethereum_block(1).header.hash();
    let text: String = got.0.iter().map(|byte| format!("{:02x}", byte)).collect();
    assert_eq!(
        map_block(&mut chain, 1),
        Err(format!(
            "Ethereum block hash mismatch: frontier consensus digest \
             (0xab000000000000000000000000000000000000000000000000000000000000cd), db state (0x{})",
            text
        ))
    );
    assert!(chain.writes.is_empty());
}

#[test]
fn block_without_ethereum_block_gets_an_empty_entry() {
    let mut chain = Chain::new(1);
    chain.say = Say::PostBlockHash;
    chain.has_stored_block = false;
    assert_eq!(map_block(&mut chain, 1), Ok(()));
    assert_eq!(chain.empty_entries, vec![own(1)]);

    let mut chain = Chain::new(1);
    chain.say = Say::NotFound;
    assert_eq!(map_block(&mut chain, 1), Ok(()));
    assert_eq!(chain.empty_entries, vec![own(1)]);
    assert_eq!(chain.writes, vec!["empty entry write"]);
}

#[test]
fn several_logs_are_an_error() {
    let mut chain = Chain::new(1);
    chain.say = Say::MultipleLogs;
    assert_eq!(map_block(&mut chain, 1), Err("Multiple logs found".to_string()));
    assert!(chain.writes.is_empty());
}

#[test]
fn errors_stop_the_mapping_of_a_block() {
    let mut chain = Chain::new(1);
    chain.fail = Some("shown");
    assert_eq!(map_block(&mut chain, 1), Err("shown failed".to_string()));
    assert!(chain.writes.is_empty());
    chain.fail = Some("entry write");
    assert_eq!(map_block(&mut chain, 1), Err("entry write failed".to_string()));
}

#[test]
fn genesis_block_is_mapped_from_the_runtime() {
    let mut chain = Chain::new(0);
    assert_eq!(map_genesis(&mut chain), Ok(()));
    assert_eq!(chain.asked, vec!["runtime block"]);
    let entry = &chain.entries[0];
    assert_eq!(entry.block_hash, own(0));
    assert_eq!(entry.ethereum_block_hash, ethereum_block(0).header.hash());
    assert_eq!(entry.rpc_compatible_block_hash, Some(shown(0)));
    assert!(entry.ethereum_transaction_hashes.is_empty());

    chain.version = Ok(Some(2));
    assert_eq!(map_genesis(&mut chain), Ok(()));
    assert_eq!(chain.asked, vec!["runtime block", "runtime block"]);
}

#[test]
fn genesis_block_of_first_version_is_asked_for_differently() {
    for version in [0, 1] {
        let mut chain = Chain::new(0);
        chain.version = Ok(Some(version));
        assert_eq!(map_genesis(&mut chain), Ok(()));
        assert_eq!(chain.asked, vec!["legacy runtime block"]);
        assert_eq!(chain.entries[0].rpc_compatible_block_hash, Some(shown(0)));
    }
}

#[test]
fn genesis_block_without_runtime_interface_gets_an_empty_entry() {
    let mut chain = Chain::new(0);
    chain.version = Ok(None);
    assert_eq!(map_genesis(&mut chain), Ok(()));
    assert_eq!(chain.empty_entries, vec![own(0)]);
    assert!(chain.entries.is_empty());
}

#[test]
fn genesis_block_must_be_there() {
    let mut chain = Chain::new(0);
    chain.has_stored_block = false;
    assert_eq!(map_genesis(&mut chain), Err("Ethereum genesis block not found".to_string()));
    chain.fail = Some("runtime block");
    assert_eq!(map_genesis(&mut chain), Err("runtime block failed".to_string()));
    chain.version = Err("version failed".to_string());
    assert_eq!(map_genesis(&mut chain), Err("version failed".to_string()));
    assert!(chain.writes.is_empty());
}

#[test]
fn whole_chain_is_mapped() {
    let mut chain = Chain::new(3);
    for round in 0..7 {
        assert_eq!(chain.entries.len(), if round < 4 { 0 } else { round - 3 });
        assert_eq!(one_round(&mut chain), Ok(true));
    }
    for number in 0..4 {
        assert_eq!(chain.shown_hash(own(number)), Some(shown(number)));
        assert_eq!(chain.entries[number as usize].block_hash, own(number));
    }
    assert_eq!(one_round(&mut chain), Ok(false));
    assert!(chain.tips.is_empty());
}

#[test]
fn rest_of_chain_is_mapped() {
    let mut chain = Chain::new(3);
    chain.map(0, Some(shown(0)));
    chain.map(1, Some(shown(1)));
    for _ in 0..3 {
        assert_eq!(one_round(&mut chain), Ok(true));
    }
    assert_eq!(chain.shown_hash(own(3)), Some(shown(3)));
}

#[test]
fn block_whose_parent_is_not_mapped_is_put_back() {
    let mut chain = Chain::new(3);
    chain.tips = vec![other(2, 2), own(2)];
    assert_eq!(one_round(&mut chain), Ok(true));
    assert_eq!(chain.tips, vec![other(2, 2), own(2), own(1)]);
    assert_eq!(chain.writes, vec!["tips write"]);
}

#[test]
fn block_whose_parent_is_not_shown_is_put_back() {
    let mut chain = Chain::new(3);
    chain.map(1, None);
    chain.tips = vec![own(2)];
    assert_eq!(one_round(&mut chain), Ok(true));
    assert_eq!(chain.tips, vec![own(2), own(1)]);
}

#[test]
fn mapped_tips_are_dropped() {
    let mut chain = Chain::new(3);
    for number in 0..3 {
        chain.map(number, Some(shown(number)));
    }
    chain.tips = vec![own(3), own(1), own(2)];
    assert_eq!(one_round(&mut chain), Ok(true));
    assert_eq!(chain.tips, vec![own(2)]);
    assert_eq!(chain.shown_hash(own(3)), Some(shown(3)));
    assert_eq!(chain.writes, vec!["entry write", "tips write"]);
}

#[test]
fn round_without_leaves_is_idle() {
    let mut chain = Chain::new(3);
    let step = sync_one_block::<Plain>(U256::zero(), SyncStrategy::Normal);
    let result = drive(&mut chain, step, |state: SyncOneBlock<Plain>, reply| {
        let reply = match reply {
            SyncReply::Tips(_) => SyncReply::Tips(Ok(Vec::new())),
            other => other,
        };
        state.resume(reply)
    });
    assert_eq!(result, Ok(false));
    assert!(chain.writes.is_empty());
}

#[test]
fn blocks_above_the_best_wait_on_a_parachain() {
    let mut chain = Chain::new(2);
    chain.map(0, Some(shown(0)));
    chain.tips = vec![own(1)];
    chain.best = 0;
    let step = sync_one_block(U256::zero(), SyncStrategy::Parachain);
    assert_eq!(drive(&mut chain, step, SyncOneBlock::resume), Ok(false));
    assert!(chain.writes.is_empty());
    chain.best = 1;
    let step = sync_one_block(U256::zero(), SyncStrategy::Parachain);
    assert_eq!(drive(&mut chain, step, SyncOneBlock::resume), Ok(true));
    assert_eq!(chain.shown_hash(own(1)), Some(shown(1)));
}

#[test]
fn listeners_are_told_and_lost_ones_dropped() {
    let mut chain = Chain::new(0);
    chain.sinks = vec![true, false, true];
    assert_eq!(one_round(&mut chain), Ok(true));
    assert_eq!(chain.sinks, vec![true, true]);
    assert_eq!(chain.news.len(), 3);
    for (index, (sink, news)) in chain.news.iter().enumerate() {
        assert_eq!(*sink, index);
        assert!(news.is_new_best);
        assert_eq!(news.hash, own(0));
    }
}

#[test]
fn news_of_old_block_says_so() {
    let mut chain = Chain::new(1);
    chain.sinks = vec![true];
    chain.tips = vec![own(0)];
    assert_eq!(one_round(&mut chain), Ok(true));
    assert!(!chain.news[0].1.is_new_best);
}

#[test]
fn listeners_are_dropped_in_major_synchronisation() {
    let mut chain = Chain::new(0);
    chain.sinks = vec![true, true];
    chain.is_major_syncing = true;
    assert_eq!(one_round(&mut chain), Ok(true));
    assert!(chain.sinks.is_empty());
    assert!(chain.news.is_empty());
}

#[test]
fn no_listener_is_told_of_deferred_block() {
    let mut chain = Chain::new(1);
    chain.sinks = vec![true];
    assert_eq!(one_round(&mut chain), Ok(true));
    assert!(chain.news.is_empty());
    assert_eq!(chain.sinks, vec![true]);
}

#[test]
fn failed_write_ends_round() {
    let mut chain = Chain::new(0);
    chain.sinks = vec![true];
    chain.fail = Some("entry write");
    assert_eq!(one_round(&mut chain), Err("entry write failed".to_string()));
    assert_eq!(chain.writes, vec!["entry write"]);
    assert!(chain.news.is_empty());

    let mut chain = Chain::new(0);
    chain.sinks = vec![true];
    chain.fail = Some("tips write");
    assert_eq!(one_round(&mut chain), Err("tips write failed".to_string()));
    assert_eq!(chain.writes, vec!["entry write", "tips write"]);
    assert!(chain.news.is_empty());
}

#[test]
fn errors_end_round_before_any_write() {
    for name in ["tips", "leaves", "synced", "shown"] {
        let mut chain = Chain::new(0);
        chain.fail = Some(name);
        assert_eq!(one_round(&mut chain), Err(format!("{} failed", name)));
        assert!(chain.writes.is_empty());
    }
    let mut chain = Chain::new(0);
    chain.fail = Some("header");
    assert_eq!(one_round(&mut chain), Err("Header not found".to_string()));
}

#[test]
fn rounds_end_with_the_first_that_moves_on() {
    let mut chain = Chain::new(3);
    assert_eq!(rounds(&mut chain, 10), Ok(true));
    assert_eq!(chain.tips, vec![own(3), own(2)]);
}

#[test]
fn no_rounds_move_nothing() {
    let mut chain = Chain::new(3);
    assert_eq!(rounds(&mut chain, 0), Ok(false));
    assert!(chain.writes.is_empty());
}

#[test]
fn idle_rounds_are_all_made() {
    let mut chain = Chain::new(0);
    chain.map(0, Some(shown(0)));
    assert_eq!(rounds(&mut chain, 3), Ok(false));
    assert_eq!(chain.writes, vec!["tips write", "tips write", "tips write"]);
}

#[test]
fn error_ends_rounds() {
    let mut chain = Chain::new(0);
    chain.fail = Some("leaves");
    assert_eq!(rounds(&mut chain, 3), Err("leaves failed".to_string()));
}

#[test]
fn start_beyond_small_numbers_is_heeded() {
    let mut chain = Chain::new(3);
    let start = U256([0, 0, 0, 1]);
    let step = fetch_header(own(2), start);
    assert!(drive(&mut chain, step, FetchHeader::resume).unwrap().is_none());
}

use std::collections::HashMap;

use tracker::block::H256;
use tracker::chain::{Block, BlockCache, ChainCacheOptions, Filter, RpcProvider};
use tracker::provider::RpcBlock;
use tracker::types::{BlockIdentifier, Log};

struct NoNode;

impl RpcProvider for NoNode {
    fn get_block(&self, _number: BlockIdentifier) -> Result<Block, String> {
        Err("no node".to_string())
    }

    fn get_logs(&self, _filter: Filter) -> Result<Vec<Log>, String> {
        Err("no node".to_string())
    }
}

fn h(n: u8) -> H256 {
    let mut x = [0u8; 32];
    x[31] = n;
    x
}

fn header(n: u8) -> Block {
    Block { hash: h(n), parent_hash: h(n - 1), number: n as u64, transactions: Vec::new(), nonce: [7u8; 8], logs_bloom: [0u8; 256] }
}

fn follower() -> BlockCache<NoNode> {
    BlockCache {
        rpc_provider: NoNode,
        options: ChainCacheOptions { max_block_cached: 32, retries_count: 3, retry_delay_ms: 100, batch_size: 10 },
        last_block: None,
        blocks_map: HashMap::new(),
    }
}

#[test]
fn initialize_records_the_block() {
    let mut c = follower();
    c.initialize(header(3));
    assert_eq!(c.last_block, Some(header(3)));
    c.add_block(header(4));
    assert_eq!(c.last_block, Some(header(4)));
    assert!(c.blocks_map.is_empty());
}

#[test]
fn handle_block_leaves_the_cache() {
    let mut c = follower();
    c.initialize(header(3));
    c.handle_block(header(5));
    assert_eq!(c.last_block, Some(header(3)));
    assert!(c.rpc_provider.get_block(BlockIdentifier::Latest).is_err());
}

#[test]
fn complete_header_needs_every_field() {
    let full = RpcBlock {
        hash: Some(h(2)),
        parent_hash: h(1),
        number: Some(2),
        transactions: Vec::new(),
        nonce: Some([7u8; 8]),
        logs_bloom: Some([0u8; 256]),
    };
    assert_eq!(Block::from_rpc(full), Some(header(2)));
    let no_nonce = RpcBlock { hash: Some(h(2)), parent_hash: h(1), number: Some(2), transactions: Vec::new(), nonce: None, logs_bloom: Some([0u8; 256]) };
    assert_eq!(Block::from_rpc(no_nonce), None);
    let no_bloom = RpcBlock { hash: Some(h(2)), parent_hash: h(1), number: Some(2), transactions: Vec::new(), nonce: Some([7u8; 8]), logs_bloom: None };
    assert_eq!(Block::from_rpc(no_bloom), None);
    let no_hash = RpcBlock { hash: None, parent_hash: h(1), number: Some(2), transactions: Vec::new(), nonce: Some([7u8; 8]), logs_bloom: Some([0u8; 256]) };
    assert_eq!(Block::from_rpc(no_hash), None);
    let no_number = RpcBlock { hash: Some(h(2)), parent_hash: h(1), number: None, transactions: Vec::new(), nonce: Some([7u8; 8]), logs_bloom: Some([0u8; 256]) };
    assert_eq!(Block::from_rpc(no_number), None);
}

#[test]
fn header_is_displayed_with_short_hashes() {
    let mut b = header(2);
    b.hash[0] = 0xab;
    b.hash[1] = 0x01;
    b.transactions = vec![h(1), h(2)];
    assert_eq!(
        b.to_display_string(),
        "(hash: 0xab01…0002, parent_hash: 0x0000…0001, number: 2, transactions_length: 2, nonce: 0x0707…0707, logs_bloom: 0x0000…0000)"
    );
}

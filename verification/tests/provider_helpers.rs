use tracker::block::{Block, H256};
use tracker::provider::{block_hash_queries, blocks_from_hashes, tracker_block_from_rpc, RetryState, RpcBlock};

fn h(n: u8) -> H256 {
    let mut x = [0u8; 32];
    x[31] = n;
    x
}

fn rpc(hash: Option<H256>, number: Option<u64>) -> RpcBlock {
    RpcBlock { hash, parent_hash: h(1), number, transactions: vec![h(9)], nonce: None, logs_bloom: None }
}

#[test]
fn pending_block_without_hash_is_refused() {
    assert_eq!(tracker_block_from_rpc(rpc(None, Some(2))).unwrap_err(), "Missing block hash");
    assert_eq!(tracker_block_from_rpc(rpc(None, None)).unwrap_err(), "Missing block hash");
}

#[test]
fn block_without_number_is_refused() {
    assert_eq!(tracker_block_from_rpc(rpc(Some(h(2)), None)).unwrap_err(), "Missing block number");
}

#[test]
fn complete_block_is_converted() {
    let b = tracker_block_from_rpc(rpc(Some(h(2)), Some(2))).unwrap();
    assert_eq!(
        b,
        Block { hash: h(2), parent_hash: h(1), number: 2, transactions: vec![h(9)], nonce: None, logs_bloom: None }
    );
}

#[test]
fn hash_queries_start_one_below() {
    assert_eq!(block_hash_queries(1, 3), vec![0, 1, 2, 3]);
    assert_eq!(block_hash_queries(5, 5), vec![4, 5]);
    assert_eq!(block_hash_queries(7, 5), Vec::<u64>::new());
    assert_eq!(block_hash_queries(7, 6), vec![6]);
}

#[test]
fn blocks_are_assembled_from_hashes() {
    // The hashes looked up for blocks 0, 1, 2 and 3.
    let blocks = blocks_from_hashes(1, &vec![h(10), h(11), h(12), h(13)]);
    assert_eq!(blocks.len(), 3);
    assert_eq!(blocks[0].number, 1);
    assert_eq!(blocks[0].hash, h(11));
    assert_eq!(blocks[0].parent_hash, [0u8; 32]);
    assert_eq!(blocks[1].parent_hash, blocks[0].hash);
    assert_eq!(blocks[2].number, 3);
    assert_eq!(blocks[2].hash, h(13));
    assert_eq!(blocks[2].parent_hash, h(12));
    assert!(blocks[1].transactions.is_empty());
    assert!(blocks[1].nonce.is_none() && blocks[1].logs_bloom.is_none());
    assert!(blocks_from_hashes(1, &vec![h(10)]).is_empty());
    assert!(blocks_from_hashes(1, &Vec::new()).is_empty());
}

#[test]
fn batch_can_end_just_below_the_largest_number() {
    let from = u64::MAX - 5;
    let hashes: Vec<H256> = (0..6).map(|i| h(i as u8)).collect();
    let blocks = blocks_from_hashes(from, &hashes);
    assert_eq!(blocks.len(), 5);
    assert_eq!(blocks[4].number, u64::MAX - 1);
    assert_eq!(blocks[4].hash, h(5));
}

#[test]
fn retries_are_counted_and_reported() {
    let mut r = RetryState::new(3);
    assert!(r.should_attempt());
    r.record_failure("connection refused".to_string());
    r.record_failure("timeout".to_string());
    assert!(r.should_attempt());
    r.record_failure("bad gateway".to_string());
    assert!(!r.should_attempt());
    assert_eq!(r.failure_message(), "Failed 3 times, last error is bad gateway");
}

#[test]
fn no_retry_reports_the_default_error() {
    let r = RetryState::new(0);
    assert!(!r.should_attempt());
    assert_eq!(r.failure_message(), "Failed 0 times, last error is Error");
    assert_eq!(RetryState::new(120).failure_message(), "Failed 120 times, last error is Error");
}

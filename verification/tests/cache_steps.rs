use tracker::block::{Block, H256};
use tracker::cache::{BlockCache, CacheOptions, Outcome, Reply, Request, Step, Task};
use tracker::types::{BlockIdentifier, Filter, FilterBlockOption, Log};

fn hash(n: u8, fork: u8) -> H256 {
    let mut h = [0u8; 32];
    h[30] = fork;
    h[31] = n;
    h
}

fn block(n: u8, fork: u8, parent_fork: u8) -> Block {
    Block {
        hash: hash(n, fork),
        parent_hash: if n == 0 { [0u8; 32] } else { hash(n - 1, parent_fork) },
        number: n as u64,
        transactions: Vec::new(),
        nonce: None,
        logs_bloom: None,
    }
}

fn log_of(b: &Block) -> Log {
    Log {
        address: [0u8; 20],
        topics: Vec::new(),
        data: Vec::new(),
        block_hash: Some(b.hash),
        block_number: Some(b.number),
        transaction_hash: None,
        transaction_index: None,
        log_index: Some([0, 0, 0, 0]),
        transaction_log_index: None,
        log_type: None,
        removed: None,
    }
}

fn cache(batch_size: u32, block_back_count: u32) -> BlockCache {
    BlockCache::new(CacheOptions {
        max_block_cached: 32,
        batch_size,
        block_back_count,
        filter: Filter { address: None, topics: None },
    })
}

/// A cache holding blocks `1..=n` of the main chain, tip `n`.
fn filled(n: u8, batch_size: u32, block_back_count: u32) -> BlockCache {
    let mut c = cache(batch_size, block_back_count);
    for i in 1..=n {
        c.blocks_map.insert(i as u64, block(i, 0, 0));
    }
    c.last_block = Some(n as u64);
    c
}

fn err_of(step: Step) -> String {
    match step {
        Step::Done(Err(e)) => e,
        _ => panic!("expected a failure"),
    }
}

#[test]
fn new_cache_has_no_tip() {
    let c = cache(10, 5);
    assert_eq!(c.get_last_block().unwrap_err(), "Missing last block number");
    assert!(c.blocks_map.is_empty());
    assert_eq!(c.last_block, None);
}

#[test]
fn tip_number_without_block_is_reported() {
    let mut c = cache(10, 5);
    c.last_block = Some(4);
    assert_eq!(c.get_last_block().unwrap_err(), "Missing last block");
}

#[test]
fn initialize_asks_for_block_by_hash_and_makes_it_the_tip() {
    let mut c = cache(10, 5);
    let b = block(7, 0, 0);
    let step = c.initialize(&b);
    let task = match step {
        Step::Await(task, request) => {
            assert_eq!(request, Request::Block(BlockIdentifier::Hash(b.hash)));
            task
        }
        _ => panic!("initialize must wait for the node"),
    };
    match c.resume(task, Reply::Block(Ok(b.clone()))) {
        Step::Done(Ok(Outcome::Initialized)) => {}
        _ => panic!("expected Initialized"),
    }
    assert_eq!(c.last_block, Some(7));
    assert_eq!(c.get_last_block().unwrap(), &b);
    assert_eq!(c.blocks_map.len(), 1);
}

#[test]
fn initialize_refuses_a_node_block_with_another_hash() {
    let mut c = cache(10, 5);
    let b = block(7, 0, 0);
    let task = Task::Initialize { block: b.clone() };
    let step = c.resume(task, Reply::Block(Ok(block(7, 1, 0))));
    assert_eq!(err_of(step), "Rpc block hash not equal to the one provided to initialize");
    assert_eq!(c.last_block, None);
    assert!(c.blocks_map.is_empty());
}

#[test]
fn node_failure_changes_nothing_on_concrete_values() {
    let mut c = filled(3, 10, 5);
    let step = c.resume(Task::Initialize { block: block(9, 0, 0) }, Reply::Block(Err("node down".to_string())));
    assert_eq!(err_of(step), "node down");
    let step = c.resume(
        Task::FindAncestor { block: block(4, 1, 1), tip: 3 },
        Reply::BlockBatch(Err("timeout".to_string())),
    );
    assert_eq!(err_of(step), "timeout");
    let step = c.resume(
        Task::Batch { from: 4, to: 4, fill_cache: true, logs: Vec::new(), handled: None },
        Reply::LogsAndBlockBatch(Err("no logs".to_string())),
    );
    assert_eq!(err_of(step), "no logs");
    assert_eq!(c.last_block, Some(3));
    assert_eq!(c.blocks_map.len(), 3);
}

#[test]
fn handle_block_needs_a_tip() {
    let c = cache(10, 5);
    assert_eq!(err_of(c.handle_block(block(2, 0, 0))), "Missing last block number");
}

#[test]
fn extending_block_fetches_one_range_on_concrete_values() {
    let mut c = filled(3, 10, 5);
    let b = block(4, 0, 0);
    let task = match c.handle_block(b.clone()) {
        Step::Await(task, request) => {
            assert_eq!(request, Request::LogsAndBlockBatch { from: 4, to: 4 });
            task
        }
        _ => panic!("expected a batch request"),
    };
    let reply = Reply::LogsAndBlockBatch(Ok((vec![log_of(&b)], vec![b.clone()])));
    match c.resume(task, reply) {
        Step::Done(Ok(Outcome::Handled { block: got, rollback, logs })) => {
            assert_eq!(got, b);
            assert!(rollback.is_none());
            assert_eq!(logs, vec![log_of(&b)]);
        }
        _ => panic!("expected the handled block"),
    }
    assert_eq!(c.last_block, Some(4));
    assert_eq!(c.blocks_map.get(&4), Some(&b));
}

#[test]
fn far_block_is_fetched_only_up_to_one_batch() {
    let c = filled(3, 2, 5);
    match c.handle_block({
        let mut far = block(40, 0, 0);
        far.parent_hash = hash(3, 0);
        far
    }) {
        Step::Await(Task::Batch { from, to, fill_cache, .. }, request) => {
            assert_eq!((from, to, fill_cache), (4, 6, true));
            assert_eq!(request, Request::LogsAndBlockBatch { from: 4, to: 6 });
        }
        _ => panic!("expected a batch request"),
    }
}

#[test]
fn reorg_with_one_cached_block_fails() {
    let c = filled(1, 10, 5);
    assert_eq!(err_of(c.handle_block(block(2, 1, 1))), "Block cache too small can't find ancestor");
}

#[test]
fn reorg_asks_for_blocks_below_tip_on_concrete_values() {
    let c = filled(6, 10, 5);
    match c.handle_block(block(7, 1, 1)) {
        Step::Await(Task::FindAncestor { tip, .. }, request) => {
            assert_eq!(tip, 6);
            assert_eq!(request, Request::MinimalBlockBatch { from: 1, to: 6 });
        }
        _ => panic!("expected an ancestor search"),
    }
    let c = filled(6, 10, 2);
    match c.handle_block(block(7, 1, 1)) {
        Step::Await(_, request) => assert_eq!(request, Request::MinimalBlockBatch { from: 4, to: 6 }),
        _ => panic!("expected an ancestor search"),
    }
    let c = filled(3, 10, 5);
    match c.handle_block(block(7, 1, 1)) {
        Step::Await(_, request) => assert_eq!(request, Request::MinimalBlockBatch { from: 1, to: 3 }),
        _ => panic!("expected an ancestor search"),
    }
}

#[test]
fn reorg_rolls_back_to_common_ancestor_on_concrete_values() {
    let mut c = filled(6, 10, 5);
    let new = block(5, 1, 1);
    let task = match c.handle_block(new.clone()) {
        Step::Await(task, _) => task,
        _ => panic!("expected an ancestor search"),
    };
    // The node's chain agrees with the cache up to block 3.
    let node_batch = vec![block(1, 0, 0), block(2, 0, 0), block(3, 0, 0), block(4, 1, 0), block(5, 1, 1), block(6, 1, 1)];
    let task = match c.resume(task, Reply::BlockBatch(Ok(node_batch))) {
        Step::Await(task, request) => {
            assert_eq!(request, Request::LogsAndBlockBatch { from: 4, to: 5 });
            task
        }
        _ => panic!("expected a batch request"),
    };
    assert_eq!(c.last_block, Some(3));
    let mut keys: Vec<u64> = c.blocks_map.keys().cloned().collect();
    keys.sort();
    assert_eq!(keys, vec![1, 2, 3]);
    let refill = vec![block(4, 1, 0), new.clone()];
    let logs = vec![log_of(&refill[0]), log_of(&refill[1])];
    match c.resume(task, Reply::LogsAndBlockBatch(Ok((logs.clone(), refill)))) {
        Step::Done(Ok(Outcome::Handled { block: got, rollback, logs: got_logs })) => {
            assert_eq!(got, new);
            assert_eq!(rollback, Some(block(3, 0, 0)));
            assert_eq!(got_logs, logs);
        }
        _ => panic!("expected the handled block"),
    }
    assert_eq!(c.last_block, Some(5));
    assert_eq!(c.blocks_map.get(&5), Some(&new));
    for (k, b) in c.blocks_map.iter() {
        assert_eq!(*k, b.number);
    }
}

#[test]
fn ancestor_search_stops_at_uncached_number() {
    let mut c = filled(4, 10, 5);
    let step = c.resume(
        Task::FindAncestor { block: block(5, 1, 1), tip: 4 },
        Reply::BlockBatch(Ok(vec![block(3, 1, 1), block(9, 1, 1)])),
    );
    assert_eq!(err_of(step), "Missing cached block");
    assert_eq!(c.last_block, Some(4));
}

#[test]
fn ancestor_search_without_agreement_fails() {
    let mut c = filled(4, 10, 5);
    let step = c.resume(
        Task::FindAncestor { block: block(5, 1, 1), tip: 4 },
        Reply::BlockBatch(Ok(vec![block(3, 1, 1), block(4, 1, 1)])),
    );
    assert_eq!(err_of(step), "Did not find common ancestor");
    assert_eq!(c.blocks_map.len(), 4);
}

#[test]
fn log_of_uncached_block_is_an_error_but_blocks_stay() {
    let mut c = filled(3, 10, 5);
    let b4 = block(4, 0, 0);
    let stray = block(8, 0, 0);
    let step = c.resume(
        Task::Batch { from: 4, to: 4, fill_cache: true, logs: Vec::new(), handled: None },
        Reply::LogsAndBlockBatch(Ok((vec![log_of(&stray)], vec![b4.clone()]))),
    );
    assert_eq!(err_of(step), "Log where the block has been emitted is not in cache");
    assert_eq!(c.last_block, Some(3));
    assert_eq!(c.blocks_map.get(&4), Some(&b4));
}

#[test]
fn batch_is_one_range_on_concrete_values() {
    let mut c = filled(1, 3, 5);
    let task = match c.handle_batch_block(&2, &100, false) {
        Step::Await(task, request) => {
            assert_eq!(request, Request::Logs(FilterBlockOption::Range { from: 2, to: 5 }));
            task
        }
        _ => panic!("expected a log request"),
    };
    let logs = vec![log_of(&block(2, 0, 0)), log_of(&block(5, 0, 0))];
    match c.resume(task, Reply::Logs(Ok(logs.clone()))) {
        Step::Done(Ok(Outcome::Logs(got))) => assert_eq!(got, logs),
        _ => panic!("expected the logs"),
    }
    assert_eq!(c.last_block, Some(5));
    assert_eq!(c.blocks_map.len(), 1);
}

#[test]
fn batch_ends_at_requested_block_when_close() {
    let c = filled(1, 10, 5);
    match c.handle_batch_block(&5, &10, true) {
        Step::Await(_, request) => assert_eq!(request, Request::LogsAndBlockBatch { from: 5, to: 10 }),
        _ => panic!("expected a request"),
    }
}

#[test]
fn later_blocks_of_a_batch_replace_earlier_ones() {
    let mut c = filled(1, 10, 5);
    let first = block(2, 0, 0);
    let second = block(2, 1, 0);
    let step = c.resume(
        Task::Batch { from: 2, to: 2, fill_cache: true, logs: Vec::new(), handled: None },
        Reply::LogsAndBlockBatch(Ok((Vec::new(), vec![first, second.clone()]))),
    );
    match step {
        Step::Done(Ok(Outcome::Logs(l))) => assert!(l.is_empty()),
        _ => panic!("expected no logs"),
    }
    assert_eq!(c.blocks_map.get(&2), Some(&second));
    assert_eq!(c.last_block, Some(2));
}

#[test]
fn batch_end_becomes_tip_on_concrete_values() {
    let mut c = filled(1, 10, 5);
    let b2 = block(2, 0, 0);
    let b3 = block(3, 0, 0);
    let step = c.resume(
        Task::Batch { from: 2, to: 3, fill_cache: true, logs: Vec::new(), handled: None },
        Reply::LogsAndBlockBatch(Ok((vec![log_of(&b3)], vec![b2, b3.clone()]))),
    );
    assert!(matches!(step, Step::Done(Ok(Outcome::Logs(_)))));
    assert_eq!(c.get_last_block().unwrap(), &b3);

    let mut c = filled(1, 10, 5);
    let step = c.resume(
        Task::Batch { from: 2, to: 3, fill_cache: false, logs: Vec::new(), handled: None },
        Reply::Logs(Ok(Vec::new())),
    );
    assert!(matches!(step, Step::Done(Ok(Outcome::Logs(_)))));
    assert_eq!(c.last_block, Some(3));
    assert_eq!(c.get_last_block().unwrap_err(), "Missing last block");
}

#[test]
fn preconditions_are_checked_on_concrete_values() {
    let c = filled(3, 10, 5);
    assert!(c.can_handle_block(&block(4, 0, 0)));
    assert!(c.can_handle_block(&block(4, 1, 1)));
    let mut huge = cache(10, 5);
    let mut top = block(0, 0, 0);
    top.number = u64::MAX - 3;
    huge.blocks_map.insert(top.number, top.clone());
    huge.last_block = Some(top.number);
    let mut next = block(0, 0, 0);
    next.parent_hash = top.hash;
    assert!(!huge.can_handle_block(&next));

    assert!(c.can_resume(&Task::Initialize { block: block(1, 0, 0) }, &Reply::Block(Err("x".to_string()))));
    assert!(!c.can_resume(&Task::Initialize { block: block(1, 0, 0) }, &Reply::Logs(Ok(Vec::new()))));
    let batch = Task::Batch { from: 4, to: 4, fill_cache: true, logs: Vec::new(), handled: None };
    let mut nameless = log_of(&block(4, 0, 0));
    nameless.block_number = None;
    assert!(!c.can_resume(&batch, &Reply::LogsAndBlockBatch(Ok((vec![nameless], Vec::new())))));
    assert!(c.can_resume(&batch, &Reply::LogsAndBlockBatch(Ok((vec![log_of(&block(4, 0, 0))], Vec::new())))));
    let late = Task::Batch { from: u64::MAX - 2, to: u64::MAX - 2, fill_cache: false, logs: Vec::new(), handled: None };
    assert!(!c.can_resume(&late, &Reply::Logs(Ok(Vec::new()))));
    assert!(c.can_resume(&late, &Reply::Logs(Err("x".to_string()))));
    let search = Task::FindAncestor { block: block(4, 1, 1), tip: 3 };
    assert!(c.can_resume(&search, &Reply::BlockBatch(Ok(vec![block(3, 0, 0)]))));
}

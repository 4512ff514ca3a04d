use crate::block::{hash_eq, Block, BlockView};
use crate::laws::resume_keeps_blocks_keyed_by_number;
use crate::types::{BlockIdentifier, Filter, FilterBlockOption, Log};
use std::collections::HashMap;
use vstd::prelude::*;

verus! {

broadcast use vstd::std_specs::hash::group_hash_axioms;

/// How the cache talks to the node and how far it looks back on a reorg.
pub struct CacheOptions {
    pub max_block_cached: u32,
    /// The widest block range asked for in one log query.
    pub batch_size: u32,
    /// How many blocks below the tip are compared when looking for the
    /// newest block that the node and the cache agree on.
    pub block_back_count: u32,
    /// Which logs are collected.
    pub filter: Filter,
}

/// Blocks seen so far, keyed by block number, and the number of the tip.
pub struct BlockCache {
    pub options: CacheOptions,
    pub last_block: Option<u64>,
    pub blocks_map: HashMap<u64, Block>,
}

/// The cache as a mathematical value.
pub struct CacheState {
    pub last_block: Option<u64>,
    pub blocks: Map<u64, BlockView>,
}

pub open spec fn blocks_view(m: Map<u64, Block>) -> Map<u64, BlockView> {
    m.map_values(|b: Block| b@)
}

pub open spec fn seq_view(bs: Seq<Block>) -> Seq<BlockView> {
    bs.map_values(|b: Block| b@)
}

pub open spec fn opt_view(b: Option<Block>) -> Option<BlockView> {
    match b {
        Some(b) => Some(b@),
        None => None,
    }
}

impl BlockCache {
    pub open spec fn state(&self) -> CacheState {
        CacheState { last_block: self.last_block, blocks: blocks_view(self.blocks_map@) }
    }
}

/// Every cached block is stored under its own number.
pub open spec fn keyed_by_number(s: CacheState) -> bool {
    forall|k: u64| #[trigger] s.blocks.contains_key(k) ==> s.blocks[k].number == k
}

/// What the node is asked for.
#[derive(Debug, PartialEq, Eq)]
pub enum Request {
    /// One block.
    Block(BlockIdentifier),
    /// The blocks `from..=to`, hash, parent hash and number only.
    MinimalBlockBatch { from: u64, to: u64 },
    /// The logs of a block range that match `options.filter`.
    Logs(FilterBlockOption),
    /// Both the logs of `from..=to` that match `options.filter` and the
    /// blocks `from..=to`, asked for together; the reply fails if either
    /// part fails.
    LogsAndBlockBatch { from: u64, to: u64 },
}

/// What the node answered to a [`Request`] of the same name.
pub enum Reply {
    Block(Result<Block, String>),
    BlockBatch(Result<Vec<Block>, String>),
    Logs(Result<Vec<Log>, String>),
    LogsAndBlockBatch(Result<(Vec<Log>, Vec<Block>), String>),
}

pub enum ReplyView {
    Block(Result<BlockView, Seq<char>>),
    BlockBatch(Result<Seq<BlockView>, Seq<char>>),
    Logs(Result<Seq<Log>, Seq<char>>),
    LogsAndBlockBatch(Result<(Seq<Log>, Seq<BlockView>), Seq<char>>),
}

impl View for Reply {
    type V = ReplyView;

    open spec fn view(&self) -> ReplyView {
        match self {
            Reply::Block(Ok(b)) => ReplyView::Block(Ok(b@)),
            Reply::Block(Err(e)) => ReplyView::Block(Err(e@)),
            Reply::BlockBatch(Ok(bs)) => ReplyView::BlockBatch(Ok(seq_view(bs@))),
            Reply::BlockBatch(Err(e)) => ReplyView::BlockBatch(Err(e@)),
            Reply::Logs(Ok(ls)) => ReplyView::Logs(Ok(ls@)),
            Reply::Logs(Err(e)) => ReplyView::Logs(Err(e@)),
            Reply::LogsAndBlockBatch(Ok((ls, bs))) => ReplyView::LogsAndBlockBatch(
                Ok((ls@, seq_view(bs@))),
            ),
            Reply::LogsAndBlockBatch(Err(e)) => ReplyView::LogsAndBlockBatch(Err(e@)),
        }
    }
}

/// An operation of the cache that waits for the node.
pub enum Task {
    /// `initialize`: waiting for the node's copy of `block`.
    Initialize { block: Block },
    /// `handle_block` after a reorg: waiting for the blocks below the tip
    /// whose number was `tip`.
    FindAncestor { block: Block, tip: u64 },
    /// Fetching the logs (and, with `fill_cache`, the blocks) of
    /// `from..=to`; `logs` holds what earlier rounds collected and `handled`
    /// the new block and rollback block of a `handle_block` that started it.
    Batch {
        from: u64,
        to: u64,
        fill_cache: bool,
        logs: Vec<Log>,
        handled: Option<(Block, Option<Block>)>,
    },
}

pub enum TaskView {
    Initialize { block: BlockView },
    FindAncestor { block: BlockView, tip: u64 },
    Batch {
        from: u64,
        to: u64,
        fill_cache: bool,
        logs: Seq<Log>,
        handled: Option<(BlockView, Option<BlockView>)>,
    },
}

impl View for Task {
    type V = TaskView;

    open spec fn view(&self) -> TaskView {
        match self {
            Task::Initialize { block } => TaskView::Initialize { block: block@ },
            Task::FindAncestor { block, tip } => TaskView::FindAncestor { block: block@, tip: *tip },
            Task::Batch { from, to, fill_cache, logs, handled } => TaskView::Batch {
                from: *from,
                to: *to,
                fill_cache: *fill_cache,
                logs: logs@,
                handled: match handled {
                    Some((b, r)) => Some((b@, opt_view(*r))),
                    None => None,
                },
            },
        }
    }
}

/// What a finished operation gives back.
pub enum Outcome {
    /// `initialize` succeeded.
    Initialized,
    /// `handle_batch_block` succeeded with these logs.
    Logs(Vec<Log>),
    /// `handle_block` succeeded: the new block, the block the cache rolled
    /// back to if there was a reorg, and the logs of the refilled range.
    Handled { block: Block, rollback: Option<Block>, logs: Vec<Log> },
}

pub enum OutcomeView {
    Initialized,
    Logs(Seq<Log>),
    Handled { block: BlockView, rollback: Option<BlockView>, logs: Seq<Log> },
}

impl View for Outcome {
    type V = OutcomeView;

    open spec fn view(&self) -> OutcomeView {
        match self {
            Outcome::Initialized => OutcomeView::Initialized,
            Outcome::Logs(ls) => OutcomeView::Logs(ls@),
            Outcome::Handled { block, rollback, logs } => OutcomeView::Handled {
                block: block@,
                rollback: opt_view(*rollback),
                logs: logs@,
            },
        }
    }
}

/// Either the operation waits for the node's answer to a request, or it
/// is over.
pub enum Step {
    Await(Task, Request),
    Done(Result<Outcome, String>),
}

pub enum StepView {
    Await(TaskView, Request),
    Done(Result<OutcomeView, Seq<char>>),
}

impl View for Step {
    type V = StepView;

    open spec fn view(&self) -> StepView {
        match self {
            Step::Await(t, r) => StepView::Await(t@, *r),
            Step::Done(Ok(o)) => StepView::Done(Ok(o@)),
            Step::Done(Err(e)) => StepView::Done(Err(e@)),
        }
    }
}

pub open spec fn fail(e: Seq<char>) -> StepView {
    StepView::Done(Err(e))
}

pub open spec fn min_u64(a: u64, b: u64) -> u64 {
    if a <= b {
        a
    } else {
        b
    }
}

/// The cached tip block.
pub open spec fn tip_of(s: CacheState) -> Result<BlockView, Seq<char>> {
    match s.last_block {
        None => Err("Missing last block number"@),
        Some(n) => if s.blocks.contains_key(n) {
            Ok(s.blocks[n])
        } else {
            Err("Missing last block"@)
        },
    }
}

/// How many blocks below the tip the ancestor search looks at.
pub open spec fn look_back(s: CacheState, back: u32) -> int {
    let len_minus_one = (s.blocks.len() as u32) - 1;
    if len_minus_one <= back {
        len_minus_one
    } else {
        back as int
    }
}

/// The block range whose node copies are compared with the cache.
pub open spec fn ancestor_search_range(s: CacheState, back: u32) -> Result<(u64, u64), Seq<char>> {
    if s.blocks.len() < 2 {
        Err("Block cache too small can't find ancestor"@)
    } else {
        match s.last_block {
            None => Err("No last block available"@),
            Some(n) => Ok(((n - look_back(s, back)) as u64, n)),
        }
    }
}

/// Walking the node's blocks from the newest down, the first one whose hash
/// matches the cached block of its number; the walk stops at a number the
/// cache does not hold.
pub open spec fn common_ancestor(blocks: Map<u64, BlockView>, batch: Seq<BlockView>) -> Result<
    BlockView,
    Seq<char>,
>
    decreases batch.len(),
{
    if batch.len() == 0 {
        Err("Did not find common ancestor"@)
    } else {
        let b = batch.last();
        if !blocks.contains_key(b.number) {
            Err("Missing cached block"@)
        } else if blocks[b.number].hash == b.hash {
            Ok(blocks[b.number])
        } else {
            common_ancestor(blocks, batch.drop_last())
        }
    }
}

/// The cache after dropping the blocks above `a` up to `tip` and making
/// `a` the tip.
pub open spec fn rolled_back(s: CacheState, a: BlockView, tip: u64) -> CacheState {
    CacheState {
        last_block: Some(a.number),
        blocks: s.blocks.remove_keys(Set::new(|k: u64| a.number < k <= tip)).insert(a.number, a),
    }
}

/// `m` with the blocks of `bs` stored under their numbers, in order.
pub open spec fn insert_blocks(m: Map<u64, BlockView>, bs: Seq<BlockView>) -> Map<u64, BlockView>
    decreases bs.len(),
{
    if bs.len() == 0 {
        m
    } else {
        insert_blocks(m, bs.drop_last()).insert(bs.last().number, bs.last())
    }
}

pub open spec fn batch_request(from: u64, to: u64, fill_cache: bool) -> Request {
    if fill_cache {
        Request::LogsAndBlockBatch { from, to }
    } else {
        Request::Logs(FilterBlockOption::Range { from, to })
    }
}

/// The first round of a batch: the range `from..=min(from + batch_size, to)`.
pub open spec fn batch_start(
    from: u64,
    to: u64,
    fill_cache: bool,
    handled: Option<(BlockView, Option<BlockView>)>,
    batch_size: u32,
) -> StepView {
    let end = min_u64((from + batch_size) as u64, to);
    StepView::Await(
        TaskView::Batch { from, to: end, fill_cache, logs: Seq::empty(), handled },
        batch_request(from, end, fill_cache),
    )
}

pub open spec fn batch_outcome(
    handled: Option<(BlockView, Option<BlockView>)>,
    logs: Seq<Log>,
) -> OutcomeView {
    match handled {
        None => OutcomeView::Logs(logs),
        Some((b, r)) => OutcomeView::Handled { block: b, rollback: r, logs },
    }
}

/// What `initialize` asks for.
pub open spec fn initialize_step(b: BlockView) -> StepView {
    StepView::Await(TaskView::Initialize { block: b }, Request::Block(BlockIdentifier::Hash(b.hash)))
}

/// What `handle_block` does before it waits for the node.
pub open spec fn handle_block_step(s: CacheState, batch_size: u32, back: u32, b: BlockView) -> StepView {
    match tip_of(s) {
        Err(e) => fail(e),
        Ok(t) => if t.hash != b.parent_hash {
            match ancestor_search_range(s, back) {
                Err(e) => fail(e),
                Ok((from, to)) => StepView::Await(
                    TaskView::FindAncestor { block: b, tip: t.number },
                    Request::MinimalBlockBatch { from, to },
                ),
            }
        } else {
            batch_start((t.number + 1) as u64, b.number, true, Some((b, None)), batch_size)
        },
    }
}

/// `handle_block` does no arithmetic that overflows.
pub open spec fn handle_block_in_range(s: CacheState, batch_size: u32, back: u32, b: BlockView) -> bool {
    match tip_of(s) {
        Err(_) => true,
        Ok(t) => if t.hash != b.parent_hash {
            (s.blocks.len() >= 2 && s.last_block is Some) ==> {
                &&& (s.blocks.len() as u32) >= 1
                &&& s.last_block->0 >= look_back(s, back)
            }
        } else {
            t.number + 1 + batch_size <= u64::MAX
        },
    }
}

/// Which reply each task waits for.
pub open spec fn accepts(t: TaskView, r: ReplyView) -> bool {
    match t {
        TaskView::Initialize { .. } => r is Block,
        TaskView::FindAncestor { .. } => r is BlockBatch,
        TaskView::Batch { fill_cache, .. } => if fill_cache {
            r is LogsAndBlockBatch
        } else {
            r is Logs
        },
    }
}

/// Resuming does no arithmetic that overflows, and when it looks at the
/// newest log of a batch, that log names its block.
pub open spec fn resume_in_range(s: CacheState, batch_size: u32, t: TaskView, r: ReplyView) -> bool {
    match t {
        TaskView::Initialize { .. } => true,
        TaskView::FindAncestor { tip, .. } => match r {
            ReplyView::BlockBatch(Ok(bs)) => match common_ancestor(s.blocks, bs) {
                Ok(a) => tip + 1 <= u64::MAX && a.number + 1 + batch_size <= u64::MAX,
                Err(_) => true,
            },
            _ => true,
        },
        TaskView::Batch { to, .. } => match r {
            ReplyView::Logs(Ok(_)) => to + batch_size <= u64::MAX,
            ReplyView::LogsAndBlockBatch(Ok((ls, _))) => {
                &&& to + batch_size <= u64::MAX
                &&& ls.len() > 0 ==> ls.last().block_number is Some
            },
            _ => true,
        },
    }
}

/// The cache and the next step after the node answered.
pub open spec fn resume_step(s: CacheState, batch_size: u32, t: TaskView, r: ReplyView) -> (
    CacheState,
    StepView,
) {
    match t {
        TaskView::Initialize { block } => match r {
            ReplyView::Block(Ok(rb)) => if rb.hash != block.hash {
                (s, fail("Rpc block hash not equal to the one provided to initialize"@))
            } else {
                (
                    CacheState {
                        last_block: Some(block.number),
                        blocks: s.blocks.insert(block.number, block),
                    },
                    StepView::Done(Ok(OutcomeView::Initialized)),
                )
            },
            ReplyView::Block(Err(e)) => (s, fail(e)),
            _ => (s, fail(Seq::empty())),
        },
        TaskView::FindAncestor { block, tip } => match r {
            ReplyView::BlockBatch(Ok(bs)) => match common_ancestor(s.blocks, bs) {
                Ok(a) => (
                    rolled_back(s, a, tip),
                    batch_start(
                        (a.number + 1) as u64,
                        block.number,
                        true,
                        Some((block, Some(a))),
                        batch_size,
                    ),
                ),
                Err(e) => (s, fail(e)),
            },
            ReplyView::BlockBatch(Err(e)) => (s, fail(e)),
            _ => (s, fail(Seq::empty())),
        },
        TaskView::Batch { from, to, fill_cache, logs, handled } => match r {
            ReplyView::Logs(Ok(ls)) => (
                CacheState { last_block: Some(to), blocks: s.blocks },
                StepView::Done(Ok(batch_outcome(handled, logs + ls))),
            ),
            ReplyView::LogsAndBlockBatch(Ok((ls, bs))) => {
                let blocks = insert_blocks(s.blocks, bs);
                if ls.len() > 0 && !blocks.contains_key(ls.last().block_number->0) {
                    (
                        CacheState { last_block: s.last_block, blocks },
                        fail("Log where the block has been emitted is not in cache"@),
                    )
                } else {
                    (
                        CacheState { last_block: Some(to), blocks },
                        StepView::Done(Ok(batch_outcome(handled, logs + ls))),
                    )
                }
            },
            ReplyView::Logs(Err(e)) => (s, fail(e)),
            ReplyView::LogsAndBlockBatch(Err(e)) => (s, fail(e)),
            _ => (s, fail(Seq::empty())),
        },
    }
}

impl BlockCache {
    pub fn new(options: CacheOptions) -> (cache: BlockCache)
        ensures
            cache.options == options,
            cache.state() == (CacheState { last_block: None, blocks: Map::empty() }),
    {
        let cache = BlockCache { options, last_block: None, blocks_map: HashMap::new() };
        assert(cache.state().blocks =~= Map::empty());
        cache
    }

    /// The cached tip block.
    pub fn get_last_block(&self) -> (res: Result<&Block, String>)
        ensures
            match res {
                Ok(b) => tip_of(self.state()) == Ok::<BlockView, Seq<char>>(b@),
                Err(e) => tip_of(self.state()) == Err::<BlockView, Seq<char>>(e@),
            },
    {
        match self.last_block {
            None => Err(String::from_str("Missing last block number")),
            Some(n) => match self.blocks_map.get(&n) {
                Some(b) => Ok(b),
                None => Err(String::from_str("Missing last block")),
            },
        }
    }

    /// Starts taking `block` as the first block of the cache: the node is
    /// asked for its block with that hash.
    pub fn initialize(&self, block: &Block) -> (step: Step)
        ensures
            step@ == initialize_step(block@),
    {
        let hash = block.hash;
        Step::Await(Task::Initialize { block: block.clone() }, Request::Block(BlockIdentifier::Hash(hash)))
    }
}


/// Removes the blocks numbered `lo..end`.
fn remove_numbers(map: &mut HashMap<u64, Block>, lo: u64, end: u64)
    ensures
        final(map)@ == old(map)@.remove_keys(Set::new(|k: u64| lo <= k < end)),
{
    let ghost m0 = map@;
    let mut bn = lo;
    while bn < end
        invariant
            lo <= bn,
            lo < end ==> bn <= end,
            lo >= end ==> bn == lo,
            map@ == m0.remove_keys(Set::new(|k: u64| lo <= k < bn)),
        decreases end - bn,
    {
        map.remove(&bn);
        assert(map@ =~= m0.remove_keys(Set::new(|k: u64| lo <= k < bn + 1)));
        bn = bn + 1;
    }
    assert(map@ =~= m0.remove_keys(Set::new(|k: u64| lo <= k < end)));
}

/// Stores each block of `bs` under its number, in order.
fn insert_all(map: &mut HashMap<u64, Block>, bs: &Vec<Block>)
    ensures
        blocks_view(final(map)@) == insert_blocks(blocks_view(old(map)@), seq_view(bs@)),
{
    let ghost v0 = blocks_view(map@);
    let n = bs.len();
    let mut i: usize = 0;
    while i < n
        invariant
            n == bs@.len(),
            i <= n,
            blocks_view(map@) == insert_blocks(v0, seq_view(bs@).take(i as int)),
        decreases n - i,
    {
        let b = bs[i].clone();
        let ghost before = map@;
        map.insert(b.number, b);
        proof {
            let t = seq_view(bs@).take(i + 1);
            assert(t.drop_last() =~= seq_view(bs@).take(i as int));
            assert(t.last() == bs@[i as int]@);
            assert(blocks_view(map@) =~= blocks_view(before).insert(b.number, b@));
        }
        i = i + 1;
    }
    assert(seq_view(bs@).take(n as int) =~= seq_view(bs@));
}

fn start_batch(
    from: u64,
    to: u64,
    fill_cache: bool,
    handled: Option<(Block, Option<Block>)>,
    batch_size: u32,
) -> (step: Step)
    requires
        from + batch_size <= u64::MAX,
    ensures
        step@ == batch_start(
            from,
            to,
            fill_cache,
            match handled {
                Some((b, r)) => Some((b@, opt_view(r))),
                None => None,
            },
            batch_size,
        ),
{
    let upper = from + batch_size as u64;
    let end = if upper <= to {
        upper
    } else {
        to
    };
    let request = if fill_cache {
        Request::LogsAndBlockBatch { from, to: end }
    } else {
        Request::Logs(FilterBlockOption::Range { from, to: end })
    };
    let step = Step::Await(
        Task::Batch { from, to: end, fill_cache, logs: Vec::new(), handled },
        request,
    );
    assert(step@ =~= batch_start(
        from,
        to,
        fill_cache,
        match handled {
            Some((b, r)) => Some((b@, opt_view(r))),
            None => None,
        },
        batch_size,
    ));
    step
}

impl BlockCache {
    proof fn lemma_len(&self)
        ensures
            self.state().blocks.len() == self.blocks_map@.len(),
            self.state().blocks.dom() == self.blocks_map@.dom(),
    {
        assert(self.state().blocks.dom() =~= self.blocks_map@.dom());
    }

    fn ancestor_search_range(&self) -> (res: Result<(u64, u64), String>)
        requires
            (self.state().blocks.len() >= 2 && self.last_block is Some) ==> {
                &&& (self.state().blocks.len() as u32) >= 1
                &&& self.last_block->0 >= look_back(self.state(), self.options.block_back_count)
            },
        ensures
            match res {
                Ok(r) => ancestor_search_range(self.state(), self.options.block_back_count)
                    == Ok::<(u64, u64), Seq<char>>(r),
                Err(e) => ancestor_search_range(self.state(), self.options.block_back_count)
                    == Err::<(u64, u64), Seq<char>>(e@),
            },
    {
        proof {
            self.lemma_len();
        }
        if self.blocks_map.len() < 2 {
            return Err(String::from_str("Block cache too small can't find ancestor"));
        }
        let last = match self.last_block {
            None => {
                return Err(String::from_str("No last block available"));
            },
            Some(n) => n,
        };
        let len32 = self.blocks_map.len() as u32;
        let back = if len32 - 1 <= self.options.block_back_count {
            len32 - 1
        } else {
            self.options.block_back_count
        };
        Ok((last - back as u64, last))
    }

    /// The node's block batch, walked from the newest block down, against
    /// the cache: the first cached block whose hash matches.
    fn common_ancestor_in(&self, batch: &Vec<Block>) -> (res: Result<&Block, String>)
        ensures
            match res {
                Ok(b) => common_ancestor(self.state().blocks, seq_view(batch@)) == Ok::<
                    BlockView,
                    Seq<char>,
                >(b@),
                Err(e) => common_ancestor(self.state().blocks, seq_view(batch@)) == Err::<
                    BlockView,
                    Seq<char>,
                >(e@),
            },
    {
        let ghost blocks = self.state().blocks;
        let ghost bv = seq_view(batch@);
        let mut i = batch.len();
        assert(bv.take(i as int) =~= bv);
        while i > 0
            invariant
                i <= batch@.len(),
                bv == seq_view(batch@),
                blocks == self.state().blocks,
                common_ancestor(blocks, bv) == common_ancestor(blocks, bv.take(i as int)),
            decreases i,
        {
            let b = &batch[i - 1];
            proof {
                let t = bv.take(i as int);
                assert(t.last() == b@);
                assert(t.drop_last() =~= bv.take(i - 1));
            }
            match self.blocks_map.get(&b.number) {
                None => {
                    return Err(String::from_str("Missing cached block"));
                },
                Some(cached) => {
                    if hash_eq(&cached.hash, &b.hash) {
                        return Ok(cached);
                    }
                },
            }
            i = i - 1;
        }
        Err(String::from_str("Did not find common ancestor"))
    }

    /// Reads the batch size and starts fetching the logs of
    /// `from..=min(from + batch_size, to_number)`, together with the blocks
    /// of that range when `fill_cache` is set.
    pub fn handle_batch_block(&self, from: &u64, to_number: &u64, fill_cache: bool) -> (step: Step)
        requires
            *from + self.options.batch_size <= u64::MAX,
        ensures
            step@ == batch_start(*from, *to_number, fill_cache, None, self.options.batch_size),
    {
        start_batch(*from, *to_number, fill_cache, None, self.options.batch_size)
    }

    /// Starts taking `block` as the next block: if it extends the cached tip,
    /// the range from just above the tip up to `block`, but at most
    /// `batch_size` blocks past the tip's successor, is fetched; otherwise the
    /// node's copies of the blocks below the tip are asked for, to find where
    /// the chains part.
    pub fn handle_block(&self, block: Block) -> (step: Step)
        requires
            handle_block_in_range(
                self.state(),
                self.options.batch_size,
                self.options.block_back_count,
                block@,
            ),
        ensures
            step@ == handle_block_step(
                self.state(),
                self.options.batch_size,
                self.options.block_back_count,
                block@,
            ),
    {
        let (tip_hash, tip_number) = match self.get_last_block() {
            Err(e) => {
                return Step::Done(Err(e));
            },
            Ok(t) => (t.hash, t.number),
        };
        if !hash_eq(&tip_hash, &block.parent_hash) {
            match self.ancestor_search_range() {
                Err(e) => Step::Done(Err(e)),
                Ok((from, to)) => Step::Await(
                    Task::FindAncestor { block, tip: tip_number },
                    Request::MinimalBlockBatch { from, to },
                ),
            }
        } else {
            start_batch(tip_number + 1, block.number, true, Some((block, None)), self.options.batch_size)
        }
    }
}


impl BlockCache {
    fn finish_initialize(&mut self, block: Block, reply: Result<Block, String>) -> (step: Step)
        ensures
            final(self).options == old(self).options,
            (final(self).state(), step@) == resume_step(
                old(self).state(),
                old(self).options.batch_size,
                TaskView::Initialize { block: block@ },
                ReplyView::Block(
                    match reply {
                        Ok(b) => Ok(b@),
                        Err(e) => Err(e@),
                    },
                ),
            ),
    {
        let rpc_block = match reply {
            Err(e) => {
                return Step::Done(Err(e));
            },
            Ok(b) => b,
        };
        if !hash_eq(&rpc_block.hash, &block.hash) {
            return Step::Done(
                Err(String::from_str("Rpc block hash not equal to the one provided to initialize")),
            );
        }
        let bn = block.number;
        let ghost before = self.blocks_map@;
        let ghost bv = block@;
        self.last_block = Some(bn);
        self.blocks_map.insert(bn, block);
        assert(blocks_view(self.blocks_map@) =~= blocks_view(before).insert(bn, bv));
        Step::Done(Ok(Outcome::Initialized))
    }

    fn finish_ancestor_search(&mut self, block: Block, tip: u64, reply: Result<Vec<Block>, String>) -> (step: Step)
        requires
            match reply {
                Ok(bs) => match common_ancestor(old(self).state().blocks, seq_view(bs@)) {
                    Ok(a) => tip + 1 <= u64::MAX && a.number + 1 + old(self).options.batch_size
                        <= u64::MAX,
                    Err(_) => true,
                },
                Err(_) => true,
            },
        ensures
            final(self).options == old(self).options,
            (final(self).state(), step@) == resume_step(
                old(self).state(),
                old(self).options.batch_size,
                TaskView::FindAncestor { block: block@, tip },
                ReplyView::BlockBatch(
                    match reply {
                        Ok(bs) => Ok(seq_view(bs@)),
                        Err(e) => Err(e@),
                    },
                ),
            ),
    {
        let batch = match reply {
            Err(e) => {
                return Step::Done(Err(e));
            },
            Ok(bs) => bs,
        };
        let ancestor = match self.common_ancestor_in(&batch) {
            Err(e) => {
                return Step::Done(Err(e));
            },
            Ok(a) => a.clone(),
        };
        let ghost s0 = self.state();
        let ghost m0 = self.blocks_map@;
        let ghost a = ancestor@;
        let n = ancestor.number;
        remove_numbers(&mut self.blocks_map, n + 1, tip + 1);
        self.last_block = Some(n);
        let ghost m1 = self.blocks_map@;
        self.blocks_map.insert(n, ancestor.clone());
        proof {
            let gone = Set::new(|k: u64| n < k <= tip);
            assert(Set::new(|k: u64| n + 1 <= k < tip + 1) =~= gone);
            assert(blocks_view(m1) =~= s0.blocks.remove_keys(gone));
            assert(blocks_view(self.blocks_map@) =~= blocks_view(m1).insert(n, a));
            assert(self.state() == rolled_back(s0, a, tip));
        }
        let from = self.blocks_map.get(&n).unwrap().number + 1;
        let target = block.number;
        start_batch(from, target, true, Some((block, Some(ancestor))), self.options.batch_size)
    }

    fn finish_batch(
        &mut self,
        from: u64,
        to: u64,
        fill_cache: bool,
        logs: Vec<Log>,
        handled: Option<(Block, Option<Block>)>,
        reply: Reply,
    ) -> (step: Step)
        requires
            accepts(
                Task::Batch { from, to, fill_cache, logs, handled }@,
                reply@,
            ),
            resume_in_range(
                old(self).state(),
                old(self).options.batch_size,
                Task::Batch { from, to, fill_cache, logs, handled }@,
                reply@,
            ),
        ensures
            final(self).options == old(self).options,
            (final(self).state(), step@) == resume_step(
                old(self).state(),
                old(self).options.batch_size,
                Task::Batch { from, to, fill_cache, logs, handled }@,
                reply@,
            ),
    {
        let ghost task = Task::Batch { from, to, fill_cache, logs, handled }@;
        let ghost rv = reply@;
        let ghost s0 = self.state();
        let mut logs = logs;
        if fill_cache {
            let (mut found, blocks) = match reply {
                Reply::LogsAndBlockBatch(Err(e)) => {
                    return Step::Done(Err(e));
                },
                Reply::LogsAndBlockBatch(Ok(pair)) => pair,
                _ => {
                    proof {
                        assert(false);
                    }
                    return Step::Done(Err(String::new()));
                },
            };
            insert_all(&mut self.blocks_map, &blocks);
            let newest = if found.len() > 0 {
                Some(found[found.len() - 1].block_number.unwrap())
            } else {
                None
            };
            logs.append(&mut found);
            if let Some(bn) = newest {
                if self.blocks_map.get(&bn).is_none() {
                    return Step::Done(
                        Err(String::from_str("Log where the block has been emitted is not in cache")),
                    );
                }
            }
        } else {
            let mut found = match reply {
                Reply::Logs(Err(e)) => {
                    return Step::Done(Err(e));
                },
                Reply::Logs(Ok(ls)) => ls,
                _ => {
                    proof {
                        assert(false);
                    }
                    return Step::Done(Err(String::new()));
                },
            };
            logs.append(&mut found);
        }
        self.last_block = Some(to);
        let next_from = to;
        let upper = next_from + self.options.batch_size as u64;
        let next_to = if upper <= to {
            upper
        } else {
            to
        };
        if next_from == next_to {
            let outcome = match handled {
                None => Outcome::Logs(logs),
                Some((b, r)) => Outcome::Handled { block: b, rollback: r, logs },
            };
            Step::Done(Ok(outcome))
        } else {
            let request = if fill_cache {
                Request::LogsAndBlockBatch { from: next_from, to: next_to }
            } else {
                Request::Logs(FilterBlockOption::Range { from: next_from, to: next_to })
            };
            Step::Await(
                Task::Batch { from: next_from, to: next_to, fill_cache, logs, handled },
                request,
            )
        }
    }

    /// Hands the node's answer to the operation that waited for it and
    /// carries that operation on.
    pub fn resume(&mut self, task: Task, reply: Reply) -> (step: Step)
        requires
            accepts(task@, reply@),
            resume_in_range(old(self).state(), old(self).options.batch_size, task@, reply@),
        ensures
            final(self).options == old(self).options,
            keyed_by_number(old(self).state()) ==> keyed_by_number(final(self).state()),
            (final(self).state(), step@) == resume_step(
                old(self).state(),
                old(self).options.batch_size,
                task@,
                reply@,
            ),
    {
        proof {
            if keyed_by_number(self.state()) {
                resume_keeps_blocks_keyed_by_number(
                    self.state(),
                    self.options.batch_size,
                    task@,
                    reply@,
                );
            }
        }
        match task {
            Task::Initialize { block } => match reply {
                Reply::Block(r) => self.finish_initialize(block, r),
                _ => {
                    proof {
                        assert(false);
                    }
                    Step::Done(Err(String::new()))
                },
            },
            Task::FindAncestor { block, tip } => match reply {
                Reply::BlockBatch(r) => self.finish_ancestor_search(block, tip, r),
                _ => {
                    proof {
                        assert(false);
                    }
                    Step::Done(Err(String::new()))
                },
            },
            Task::Batch { from, to, fill_cache, logs, handled } => self.finish_batch(
                from,
                to,
                fill_cache,
                logs,
                handled,
                reply,
            ),
        }
    }
}


impl BlockCache {
    /// Whether `handle_block(block)` can run without overflowing: false
    /// exactly where it would overflow or underflow.
    pub fn can_handle_block(&self, block: &Block) -> (ok: bool)
        ensures
            ok == handle_block_in_range(
                self.state(),
                self.options.batch_size,
                self.options.block_back_count,
                block@,
            ),
    {
        proof {
            self.lemma_len();
        }
        let tip = match self.get_last_block() {
            Err(_) => {
                return true;
            },
            Ok(t) => t,
        };
        if !hash_eq(&tip.hash, &block.parent_hash) {
            let len = self.blocks_map.len();
            match self.last_block {
                Some(last) => if len >= 2 {
                    let len32 = len as u32;
                    if len32 < 1 {
                        return false;
                    }
                    let back = if len32 - 1 <= self.options.block_back_count {
                        len32 - 1
                    } else {
                        self.options.block_back_count
                    };
                    last >= back as u64
                } else {
                    true
                },
                None => true,
            }
        } else {
            tip.number < u64::MAX && tip.number + 1 <= u64::MAX - self.options.batch_size as u64
        }
    }

    /// Whether `resume(task, reply)` can run: the reply answers the task's
    /// request, and resuming neither overflows nor meets a newest log
    /// without a block number.
    pub fn can_resume(&self, task: &Task, reply: &Reply) -> (ok: bool)
        ensures
            ok == (accepts(task@, reply@) && resume_in_range(
                self.state(),
                self.options.batch_size,
                task@,
                reply@,
            )),
    {
        let batch = self.options.batch_size as u64;
        match task {
            Task::Initialize { .. } => match reply {
                Reply::Block(_) => true,
                _ => false,
            },
            Task::FindAncestor { tip, .. } => match reply {
                Reply::BlockBatch(Ok(bs)) => match self.common_ancestor_in(bs) {
                    Ok(a) => *tip < u64::MAX && a.number < u64::MAX && a.number + 1 <= u64::MAX - batch,
                    Err(_) => true,
                },
                Reply::BlockBatch(Err(_)) => true,
                _ => false,
            },
            Task::Batch { to, fill_cache, .. } => match reply {
                Reply::Logs(r) => {
                    if *fill_cache {
                        false
                    } else {
                        match r {
                            Ok(_) => *to <= u64::MAX - batch,
                            Err(_) => true,
                        }
                    }
                },
                Reply::LogsAndBlockBatch(r) => {
                    if !*fill_cache {
                        false
                    } else {
                        match r {
                            Ok((ls, _)) => *to <= u64::MAX - batch && (ls.len() == 0
                                || ls[ls.len() - 1].block_number.is_some()),
                            Err(_) => true,
                        }
                    }
                },
                _ => false,
            },
        }
    }
}
} // verus!

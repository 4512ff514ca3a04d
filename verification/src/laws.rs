use crate::block::BlockView;
use crate::cache::{
    batch_request, batch_start, common_ancestor, fail, handle_block_in_range, handle_block_step,
    initialize_step, insert_blocks, keyed_by_number, min_u64, resume_step, rolled_back, tip_of,
    CacheState, OutcomeView, ReplyView, Request, StepView, TaskView,
};
use crate::artifact::{bytecode_of_object, hex_value};
use crate::text::decimal;
use crate::types::Log;
use vstd::prelude::*;

verus! {

proof fn lemma_insert_blocks_keyed(m: Map<u64, BlockView>, bs: Seq<BlockView>)
    requires
        forall|k: u64| #[trigger] m.contains_key(k) ==> m[k].number == k,
    ensures
        forall|k: u64| #[trigger]
            insert_blocks(m, bs).contains_key(k) ==> insert_blocks(m, bs)[k].number == k,
    decreases bs.len(),
{
    if bs.len() > 0 {
        lemma_insert_blocks_keyed(m, bs.drop_last());
    }
}

/// Every operation stores each block under its own number: if that held of
/// the cache before the node's answer was handed in, it holds after.
pub proof fn resume_keeps_blocks_keyed_by_number(
    s: CacheState,
    batch_size: u32,
    t: TaskView,
    r: ReplyView,
)
    requires
        keyed_by_number(s),
    ensures
        keyed_by_number(resume_step(s, batch_size, t, r).0),
{
    match t {
        TaskView::Batch { .. } => match r {
            ReplyView::LogsAndBlockBatch(Ok((ls, bs))) => {
                lemma_insert_blocks_keyed(s.blocks, bs);
            },
            _ => {},
        },
        TaskView::FindAncestor { tip, .. } => match r {
            ReplyView::BlockBatch(Ok(bs)) => match common_ancestor(s.blocks, bs) {
                Ok(a) => {
                    let s2 = rolled_back(s, a, tip);
                    assert forall|k: u64| #[trigger] s2.blocks.contains_key(k) implies s2.blocks[k].number
                        == k by {
                        if k != a.number {
                            assert(s.blocks.contains_key(k));
                        }
                    }
                },
                Err(_) => {},
            },
            _ => {},
        },
        _ => {},
    }
}

/// A cache that was just made holds no block and has no tip.
pub proof fn new_cache_is_empty_and_keyed(s: CacheState)
    requires
        s == (CacheState { last_block: None, blocks: Map::empty() }),
    ensures
        keyed_by_number(s),
        tip_of(s) == Err::<BlockView, Seq<char>>("Missing last block number"@),
{
}

/// `initialize` asks the node for the given block by its hash; when the
/// node's block has that hash, the given block becomes the tip of the cache,
/// stored under its number, and the rest of the cache is kept. When the
/// hashes differ, or the node fails, the cache does not change.
pub proof fn initialize_makes_block_the_tip(s: CacheState, batch_size: u32, b: BlockView, r: Result<BlockView, Seq<char>>)
    ensures
        initialize_step(b) == StepView::Await(
            TaskView::Initialize { block: b },
            Request::Block(crate::types::BlockIdentifier::Hash(b.hash)),
        ),
        ({
            let (s2, step) = resume_step(s, batch_size, TaskView::Initialize { block: b }, ReplyView::Block(r));
            match r {
                Ok(rb) => if rb.hash == b.hash {
                    &&& step == StepView::Done(Ok(OutcomeView::Initialized))
                    &&& tip_of(s2) == Ok::<BlockView, Seq<char>>(b)
                    &&& s2.blocks == s.blocks.insert(b.number, b)
                } else {
                    &&& step is Done
                    &&& s2 == s
                },
                Err(e) => step == fail(e) && s2 == s,
            }
        }),
{
}

/// A block whose parent is the cached tip starts no ancestor search: the
/// logs and blocks from just above the tip up to the block (at most
/// `batch_size` blocks further) are asked for. Once the node answers and
/// the newest log's block is then cached, the operation is over in that one
/// round: it gives back the block, no rollback block and exactly the logs of
/// the answer, and the end of that range becomes the tip.
pub proof fn extending_block_fetches_one_range(
    s: CacheState,
    batch_size: u32,
    back: u32,
    b: BlockView,
    ls: Seq<Log>,
    bs: Seq<BlockView>,
)
    requires
        tip_of(s) is Ok,
        tip_of(s)->Ok_0.hash == b.parent_hash,
    ensures
        ({
            let t = tip_of(s)->Ok_0;
            let from = (t.number + 1) as u64;
            let end = min_u64((from + batch_size) as u64, b.number);
            let task = TaskView::Batch { from, to: end, fill_cache: true, logs: Seq::empty(), handled: Some((b, None)) };
            let (s2, step) = resume_step(s, batch_size, task, ReplyView::LogsAndBlockBatch(Ok((ls, bs))));
            &&& handle_block_step(s, batch_size, back, b) == StepView::Await(
                task,
                Request::LogsAndBlockBatch { from, to: end },
            )
            &&& s2.blocks == insert_blocks(s.blocks, bs)
            &&& (ls.len() == 0 || insert_blocks(s.blocks, bs).contains_key(ls.last().block_number->0))
                ==> {
                &&& step == StepView::Done(Ok(OutcomeView::Handled { block: b, rollback: None, logs: ls }))
                &&& s2.last_block == Some(end)
            }
        }),
{
    assert(Seq::<Log>::empty() + ls =~= ls);
}

/// `handle_batch_block` always finishes after one answer from the node: it
/// fetches `from..=min(from + batch_size, to)` only, gives back exactly the
/// logs of the answer, and makes the end of that range the tip. Without
/// `fill_cache` the cached blocks are left alone.
pub proof fn batch_is_one_range(
    s: CacheState,
    batch_size: u32,
    from: u64,
    to: u64,
    fill_cache: bool,
    ls: Seq<Log>,
    bs: Seq<BlockView>,
)
    requires
        fill_cache ==> (ls.len() == 0 || insert_blocks(s.blocks, bs).contains_key(ls.last().block_number->0)),
    ensures
        ({
            let end = min_u64((from + batch_size) as u64, to);
            let task = TaskView::Batch { from, to: end, fill_cache, logs: Seq::empty(), handled: None };
            let reply = if fill_cache {
                ReplyView::LogsAndBlockBatch(Ok((ls, bs)))
            } else {
                ReplyView::Logs(Ok(ls))
            };
            let (s2, step) = resume_step(s, batch_size, task, reply);
            &&& batch_start(from, to, fill_cache, None, batch_size) == StepView::Await(
                task,
                batch_request(from, end, fill_cache),
            )
            &&& step == StepView::Done(Ok(OutcomeView::Logs(ls)))
            &&& s2.last_block == Some(end)
            &&& s2.blocks == if fill_cache {
                insert_blocks(s.blocks, bs)
            } else {
                s.blocks
            }
        }),
{
    assert(Seq::<Log>::empty() + ls =~= ls);
}

/// A block whose parent is not the cached tip, with at least two blocks
/// cached, makes the cache ask the node for the blocks from
/// `block_back_count` below the tip (or as many as there are other cached
/// blocks, if fewer) up to the tip.
pub proof fn reorg_asks_for_blocks_below_tip(s: CacheState, batch_size: u32, back: u32, b: BlockView)
    requires
        tip_of(s) is Ok,
        tip_of(s)->Ok_0.hash != b.parent_hash,
        s.blocks.len() >= 2,
        handle_block_in_range(s, batch_size, back, b),
        s.blocks.len() <= u32::MAX,
    ensures
        ({
            let n = s.last_block->0;
            match handle_block_step(s, batch_size, back, b) {
                StepView::Await(TaskView::FindAncestor { block, tip }, Request::MinimalBlockBatch { from, to }) => {
                    &&& block == b
                    &&& tip == tip_of(s)->Ok_0.number
                    &&& to == n
                    &&& from <= to
                    &&& to - from == if s.blocks.len() - 1 <= back {
                        s.blocks.len() - 1
                    } else {
                        back as int
                    }
                },
                _ => false,
            }
        }),
{
}

/// The block the search settles on is the cached block stored under the
/// number of a block of the node's batch, with the same hash as that block;
/// every block that the batch holds after that one is cached under its
/// number with another hash.
pub proof fn common_ancestor_is_agreed(blocks: Map<u64, BlockView>, batch: Seq<BlockView>)
    requires
        common_ancestor(blocks, batch) is Ok,
    ensures
        ({
            let a = common_ancestor(blocks, batch)->Ok_0;
            exists|i: int| #![trigger batch[i]]
                0 <= i < batch.len() && blocks.contains_key(batch[i].number) && blocks[batch[i].number] == a
                    && a.hash == batch[i].hash
                    && forall|j: int| #![trigger batch[j]] i < j < batch.len() ==> blocks.contains_key(batch[j].number)
                        && blocks[batch[j].number].hash != batch[j].hash
        }),
    decreases batch.len(),
{
    let b = batch.last();
    if blocks.contains_key(b.number) && blocks[b.number].hash == b.hash {
        let i = batch.len() - 1;
        assert(batch[i] == b);
    } else {
        let rest = batch.drop_last();
        common_ancestor_is_agreed(blocks, rest);
        let a = common_ancestor(blocks, rest)->Ok_0;
        let i = choose|i: int| #![trigger rest[i]]
            0 <= i < rest.len() && blocks.contains_key(rest[i].number) && blocks[rest[i].number] == a
                && a.hash == rest[i].hash
                && forall|j: int| #![trigger rest[j]] i < j < rest.len() ==> blocks.contains_key(rest[j].number)
                    && blocks[rest[j].number].hash != rest[j].hash;
        assert(batch[i] == rest[i]);
        assert forall|j: int| #![trigger batch[j]] i < j < batch.len() implies blocks.contains_key(batch[j].number)
            && blocks[batch[j].number].hash != batch[j].hash by {
            if j < rest.len() {
                assert(batch[j] == rest[j]);
            }
        }
    }
}

/// When the search finds the block where the chains part, that block
/// becomes the tip; every block above it up to the old tip is dropped,
/// every other cached block is kept as it was; then the range from just
/// above it up to the new block is fetched, and the operation will give
/// back that block as its rollback block.
pub proof fn reorg_rolls_back_to_common_ancestor(
    s: CacheState,
    batch_size: u32,
    b: BlockView,
    tip: u64,
    bs: Seq<BlockView>,
)
    requires
        common_ancestor(s.blocks, bs) is Ok,
    ensures
        ({
            let a = common_ancestor(s.blocks, bs)->Ok_0;
            let (s2, step) = resume_step(s, batch_size, TaskView::FindAncestor { block: b, tip }, ReplyView::BlockBatch(Ok(bs)));
            &&& s2.last_block == Some(a.number)
            &&& tip_of(s2) == Ok::<BlockView, Seq<char>>(a)
            &&& forall|k: u64| a.number < k <= tip ==> !#[trigger] s2.blocks.contains_key(k)
            &&& forall|k: u64| k != a.number && !(a.number < k <= tip) ==> (#[trigger] s2.blocks.contains_key(k) == s.blocks.contains_key(k))
            &&& forall|k: u64| k != a.number && !(a.number < k <= tip) && s.blocks.contains_key(k) ==> #[trigger] s2.blocks[k] == s.blocks[k]
            &&& step == batch_start((a.number + 1) as u64, b.number, true, Some((b, Some(a))), batch_size)
        }),
{
    let a = common_ancestor(s.blocks, bs)->Ok_0;
    assert(common_ancestor(s.blocks, bs) == Ok::<BlockView, Seq<char>>(a));
}

/// When the node fails, the cache is left as it was and the node's error is
/// what the operation gives back.
pub proof fn node_failure_changes_nothing(s: CacheState, batch_size: u32, t: TaskView, e: Seq<char>)
    ensures
        ({
            let r = match t {
                TaskView::Initialize { .. } => ReplyView::Block(Err(e)),
                TaskView::FindAncestor { .. } => ReplyView::BlockBatch(Err(e)),
                TaskView::Batch { fill_cache, .. } => if fill_cache {
                    ReplyView::LogsAndBlockBatch(Err(e))
                } else {
                    ReplyView::Logs(Err(e))
                },
            };
            resume_step(s, batch_size, t, r) == (s, fail(e))
        }),
{
}


proof fn lemma_insert_blocks_contains(m: Map<u64, BlockView>, bs: Seq<BlockView>, k: u64)
    requires
        m.contains_key(k) || exists|i: int| 0 <= i < bs.len() && #[trigger] bs[i].number == k,
    ensures
        insert_blocks(m, bs).contains_key(k),
    decreases bs.len(),
{
    if bs.len() > 0 && bs.last().number != k {
        let rest = bs.drop_last();
        if !m.contains_key(k) {
            let i = choose|i: int| 0 <= i < bs.len() && #[trigger] bs[i].number == k;
            assert(rest[i] == bs[i]);
        }
        lemma_insert_blocks_contains(m, rest, k);
    }
}

/// A cached tip stays cached whatever the node answers, as long as a filled
/// batch holds a block numbered as the end of its range (or that block is
/// cached already) and, for a batch without filling, the end of the range
/// is cached: a following `handle_block` then finds its tip.
pub proof fn resume_keeps_tip_cached(s: CacheState, batch_size: u32, t: TaskView, r: ReplyView)
    requires
        tip_of(s) is Ok,
        match (t, r) {
            (TaskView::Batch { to, .. }, ReplyView::LogsAndBlockBatch(Ok((_, bs)))) => s.blocks.contains_key(to)
                || exists|i: int| 0 <= i < bs.len() && #[trigger] bs[i].number == to,
            (TaskView::Batch { to, .. }, ReplyView::Logs(Ok(_))) => s.blocks.contains_key(to),
            _ => true,
        },
    ensures
        tip_of(resume_step(s, batch_size, t, r).0) is Ok,
{
    match (t, r) {
        (TaskView::Batch { to, .. }, ReplyView::LogsAndBlockBatch(Ok((_, bs)))) => {
            lemma_insert_blocks_contains(s.blocks, bs, to);
            lemma_insert_blocks_contains(s.blocks, bs, s.last_block->0);
        },
        _ => {},
    }
}

/// After a filled batch whose newest block is numbered as the end of the
/// range, that block is the tip. After a batch without filling, the end of
/// the range is the tip number, and a tip that is not cached is reported
/// as missing.
pub proof fn batch_end_becomes_tip(
    s: CacheState,
    batch_size: u32,
    from: u64,
    to: u64,
    logs: Seq<Log>,
    handled: Option<(BlockView, Option<BlockView>)>,
    ls: Seq<Log>,
    bs: Seq<BlockView>,
)
    ensures
        ({
            let filled = resume_step(
                s,
                batch_size,
                TaskView::Batch { from, to, fill_cache: true, logs, handled },
                ReplyView::LogsAndBlockBatch(Ok((ls, bs))),
            ).0;
            (bs.len() > 0 && bs.last().number == to && (ls.len() == 0 || insert_blocks(
                s.blocks,
                bs,
            ).contains_key(ls.last().block_number->0))) ==> tip_of(filled) == Ok::<
                BlockView,
                Seq<char>,
            >(bs.last())
        }),
        ({
            let unfilled = resume_step(
                s,
                batch_size,
                TaskView::Batch { from, to, fill_cache: false, logs, handled },
                ReplyView::Logs(Ok(ls)),
            ).0;
            &&& unfilled.last_block == Some(to)
            &&& unfilled.blocks == s.blocks
            &&& !s.blocks.contains_key(to) ==> tip_of(unfilled) == Err::<BlockView, Seq<char>>(
                "Missing last block"@,
            )
        }),
{
}

/// The ancestor search is complete: when some block of the node's batch is
/// cached under its number with the same hash, and every block after it in
/// the batch is cached under its number with another hash, the search
/// settles on that cached block. In particular a batch whose only agreeing
/// block is its first one gives that block.
pub proof fn common_ancestor_is_found(blocks: Map<u64, BlockView>, batch: Seq<BlockView>, i: int)
    requires
        0 <= i < batch.len(),
        blocks.contains_key(batch[i].number),
        blocks[batch[i].number].hash == batch[i].hash,
        forall|j: int|
            i < j < batch.len() ==> blocks.contains_key(#[trigger] batch[j].number)
                && blocks[batch[j].number].hash != batch[j].hash,
    ensures
        common_ancestor(blocks, batch) == Ok::<BlockView, Seq<char>>(blocks[batch[i].number]),
    decreases batch.len(),
{
    if i < batch.len() - 1 {
        let rest = batch.drop_last();
        let last = batch.len() - 1;
        assert(blocks.contains_key(batch[last].number));
        assert(rest[i] == batch[i]);
        assert forall|j: int| i < j < rest.len() implies blocks.contains_key(#[trigger] rest[j].number)
            && blocks[rest[j].number].hash != rest[j].hash by {
            assert(rest[j] == batch[j]);
        }
        common_ancestor_is_found(blocks, rest, i);
    }
}

/// Every fetch of logs (and blocks) covers `from` up to `to`, but never
/// more than `batch_size` blocks past `from`, whoever started it: a plain
/// batch, a block that extends the tip, or the refill after a rollback.
pub proof fn batch_range_is_capped(
    from: u64,
    to: u64,
    fill_cache: bool,
    handled: Option<(BlockView, Option<BlockView>)>,
    batch_size: u32,
)
    requires
        from + batch_size <= u64::MAX,
    ensures
        ({
            let end: u64 = if from + batch_size <= to {
                (from + batch_size) as u64
            } else {
                to
            };
            &&& batch_start(from, to, fill_cache, handled, batch_size) == StepView::Await(
                TaskView::Batch { from, to: end, fill_cache, logs: Seq::empty(), handled },
                if fill_cache {
                    Request::LogsAndBlockBatch { from, to: end }
                } else {
                    Request::Logs(crate::types::FilterBlockOption::Range { from, to: end })
                },
            )
            &&& end <= to
            &&& end <= from + batch_size
        }),
{
}

/// After a rollback to the common ancestor `a`, the refill asks for the
/// logs and blocks from just above `a` up to the new block, but never more
/// than `batch_size` blocks past `a`'s successor.
pub proof fn refill_after_rollback_is_capped(
    s: CacheState,
    batch_size: u32,
    b: BlockView,
    tip: u64,
    bs: Seq<BlockView>,
)
    requires
        common_ancestor(s.blocks, bs) is Ok,
        common_ancestor(s.blocks, bs)->Ok_0.number + 1 + batch_size <= u64::MAX,
    ensures
        ({
            let a = common_ancestor(s.blocks, bs)->Ok_0;
            let from = (a.number + 1) as u64;
            let end: u64 = if from + batch_size <= b.number {
                (from + batch_size) as u64
            } else {
                b.number
            };
            resume_step(s, batch_size, TaskView::FindAncestor { block: b, tip }, ReplyView::BlockBatch(Ok(bs))).1
                == StepView::Await(
                TaskView::Batch { from, to: end, fill_cache: true, logs: Seq::empty(), handled: Some((b, Some(a))) },
                Request::LogsAndBlockBatch { from, to: end },
            )
        }),
{
    let a = common_ancestor(s.blocks, bs)->Ok_0;
    assert(common_ancestor(s.blocks, bs) == Ok::<BlockView, Seq<char>>(a));
    batch_range_is_capped((a.number + 1) as u64, b.number, true, Some((b, Some(a))), batch_size);
}

/// Every hexadecimal digit has its value: `0`..`9` give 0..9, and `a`..`f`
/// as well as `A`..`F` give 10..15.
pub proof fn hex_digits_have_their_values(d: u8)
    requires
        d < 16,
    ensures
        d < 10 ==> hex_value((48 + d) as char) == Some(d),
        d >= 10 ==> hex_value((87 + d) as char) == Some(d),
        d >= 10 ==> hex_value((55 + d) as char) == Some(d),
{
}

/// Every byte, written as `0x` and its two lower-case hex digits, decodes
/// back to that one byte.
pub proof fn one_byte_object_decodes(b: u8)
    ensures
        ({
            let hi = b / 16;
            let lo = b % 16;
            let hc = if hi < 10 { (48 + hi) as char } else { (87 + hi) as char };
            let lc = if lo < 10 { (48 + lo) as char } else { (87 + lo) as char };
            bytecode_of_object(seq!['0', 'x', hc, lc]) == Ok::<Seq<u8>, Seq<char>>(seq![b])
        }),
{
    let hi = b / 16;
    let lo = b % 16;
    let hc = if hi < 10 { (48 + hi) as char } else { (87 + hi) as char };
    let lc = if lo < 10 { (48 + lo) as char } else { (87 + lo) as char };
    hex_digits_have_their_values(hi);
    hex_digits_have_their_values(lo);
    let object = seq!['0', 'x', hc, lc];
    let digits = object.subrange(2, 4);
    assert(digits =~= seq![hc, lc]);
    assert(hex_value(digits[0]) == Some(hi));
    assert(hex_value(digits[1]) == Some(lo));
    assert(forall|j: int| 0 <= j < digits.len() ==> #[trigger] hex_value(digits[j]) is Some);
    assert(crate::artifact::decode_hex(digits) =~= seq![b]);
}

/// The number a string of decimal digits spells, most significant first.
pub open spec fn digits_value(s: Seq<char>) -> nat
    decreases s.len(),
{
    if s.len() == 0 {
        0
    } else {
        digits_value(s.drop_last()) * 10 + ((s.last() as int - 48) as nat)
    }
}

/// `decimal(n)` is the usual decimal notation of `n`: it is made of the
/// digits `0`..`9`, starts with a non-zero digit unless `n` is zero, and
/// reading it back gives `n`.
pub proof fn decimal_reads_back(n: nat)
    ensures
        decimal(n).len() >= 1,
        forall|i: int| 0 <= i < decimal(n).len() ==> '0' <= #[trigger] decimal(n)[i] && decimal(n)[i] <= '9',
        n > 0 ==> decimal(n)[0] != '0',
        digits_value(decimal(n)) == n,
    decreases n,
{
    if n >= 10 {
        decimal_reads_back(n / 10);
        let d = decimal(n);
        let p = decimal(n / 10);
        assert(d == p.push(crate::text::digit_char(n % 10)));
        assert(d.drop_last() =~= p);
        assert(d[0] == p[0]);
        assert(crate::text::digit_char(n % 10) as int == 48 + n % 10);
        assert(digits_value(d) == digits_value(p) * 10 + n % 10);
        assert((n / 10) * 10 + n % 10 == n) by (nonlinear_arith);
        assert forall|i: int| 0 <= i < d.len() implies '0' <= #[trigger] d[i] && d[i] <= '9' by {
            if i < p.len() {
                assert(d[i] == p[i]);
            }
        }
    } else {
        let d = decimal(n);
        assert(crate::text::digit_char(n) as int == 48 + n);
        assert(d.drop_last() =~= Seq::<char>::empty());
        assert(digits_value(d.drop_last()) == 0);
        assert(digits_value(d) == n);
    }
}

/// Only hexadecimal digits have a value, and the value is the digit's:
/// a character with a value is `0`..`9`, `a`..`f` or `A`..`F` spelling it.
pub proof fn only_hex_digits_have_values(c: char)
    ensures
        match hex_value(c) {
            Some(v) => v < 16 && (c == (48 + v) as char || (v >= 10 && (c == (87 + v) as char || c
                == (55 + v) as char))) && (v < 10 ==> c == (48 + v) as char),
            None => !('0' <= c && c <= '9') && !('a' <= c && c <= 'f') && !('A' <= c && c <= 'F'),
        },
{
}

/// A `bytecode.object` string must start with `0x` and hold an even number
/// of hex digits after it; otherwise it is refused.
pub proof fn malformed_objects_are_refused(object: Seq<char>)
    ensures
        (object.len() < 2 || object[0] != '0' || object[1] != 'x') ==> bytecode_of_object(object) is Err,
        (object.len() >= 2 && (object.len() - 2) % 2 != 0) ==> bytecode_of_object(object) is Err,
        (exists|j: int| 2 <= j < object.len() && #[trigger] hex_value(object[j]) is None)
            ==> bytecode_of_object(object) is Err,
        bytecode_of_object(object) is Ok ==> bytecode_of_object(object)->Ok_0.len() * 2 + 2
            == object.len(),
{
    if object.len() >= 2 && object[0] == '0' && object[1] == 'x' {
        let digits = object.subrange(2, object.len() as int);
        if exists|j: int| 2 <= j < object.len() && #[trigger] hex_value(object[j]) is None {
            let j = choose|j: int| 2 <= j < object.len() && #[trigger] hex_value(object[j]) is None;
            assert(digits[j - 2] == object[j]);
        }
    }
}

/// A byte's two hex digits, as hashes are displayed, are lower-case hex
/// digits that spell the byte.
pub proof fn hex_byte_spells_the_byte(b: u8)
    ensures
        crate::text::hex_byte(b).len() == 2,
        hex_value(crate::text::hex_byte(b)[0]) == Some((b / 16) as u8),
        hex_value(crate::text::hex_byte(b)[1]) == Some((b % 16) as u8),
        !('A' <= crate::text::hex_byte(b)[0] && crate::text::hex_byte(b)[0] <= 'F'),
        !('A' <= crate::text::hex_byte(b)[1] && crate::text::hex_byte(b)[1] <= 'F'),
{
    hex_digits_have_their_values((b / 16) as u8);
    hex_digits_have_their_values((b % 16) as u8);
}

proof fn lemma_insert_blocks_keeps(m: Map<u64, BlockView>, bs: Seq<BlockView>, k: u64)
    requires
        forall|i: int| 0 <= i < bs.len() ==> #[trigger] bs[i].number != k,
    ensures
        insert_blocks(m, bs).contains_key(k) == m.contains_key(k),
        m.contains_key(k) ==> insert_blocks(m, bs)[k] == m[k],
    decreases bs.len(),
{
    if bs.len() > 0 {
        let rest = bs.drop_last();
        assert(bs[bs.len() - 1].number != k);
        assert forall|i: int| 0 <= i < rest.len() implies #[trigger] rest[i].number != k by {
            assert(rest[i] == bs[i]);
        }
        lemma_insert_blocks_keeps(m, rest, k);
    }
}

proof fn lemma_insert_blocks_last(m: Map<u64, BlockView>, bs: Seq<BlockView>, i: int)
    requires
        0 <= i < bs.len(),
        forall|j: int| i < j < bs.len() ==> #[trigger] bs[j].number != bs[i].number,
    ensures
        insert_blocks(m, bs).contains_key(bs[i].number),
        insert_blocks(m, bs)[bs[i].number] == bs[i],
    decreases bs.len(),
{
    let last = bs.len() - 1;
    if i < last {
        let rest = bs.drop_last();
        assert(bs[last].number != bs[i].number);
        assert(rest[i] == bs[i]);
        assert forall|j: int| i < j < rest.len() implies #[trigger] rest[j].number != rest[i].number by {
            assert(rest[j] == bs[j]);
        }
        lemma_insert_blocks_last(m, rest, i);
    }
}

/// Storing a batch of blocks keeps every cached block whose number the
/// batch does not hold, and stores under each number the batch holds the
/// last block of the batch with that number.
pub proof fn inserted_blocks_last_wins(m: Map<u64, BlockView>, bs: Seq<BlockView>, k: u64)
    ensures
        (forall|i: int| 0 <= i < bs.len() ==> #[trigger] bs[i].number != k) ==> {
            &&& insert_blocks(m, bs).contains_key(k) == m.contains_key(k)
            &&& m.contains_key(k) ==> insert_blocks(m, bs)[k] == m[k]
        },
        forall|i: int|
            0 <= i < bs.len() && #[trigger] bs[i].number == k && (forall|j: int|
                i < j < bs.len() ==> bs[j].number != k) ==> insert_blocks(m, bs).contains_key(k)
                && insert_blocks(m, bs)[k] == bs[i],
{
    if forall|i: int| 0 <= i < bs.len() ==> #[trigger] bs[i].number != k {
        lemma_insert_blocks_keeps(m, bs, k);
    }
    assert forall|i: int|
        0 <= i < bs.len() && #[trigger] bs[i].number == k && (forall|j: int|
            i < j < bs.len() ==> bs[j].number != k) implies insert_blocks(m, bs).contains_key(k)
        && insert_blocks(m, bs)[k] == bs[i] by {
        assert forall|j: int| i < j < bs.len() implies #[trigger] bs[j].number != bs[i].number by {}
        lemma_insert_blocks_last(m, bs, i);
    }
}


/// The `i`-th byte is sixteen times the value of the digit at `2 + 2i`
/// plus the value of the digit after it.
pub open spec fn spells_byte(object: Seq<char>, bs: Seq<u8>, i: int) -> bool {
    &&& hex_value(object[2 + 2 * i]) is Some
    &&& hex_value(object[3 + 2 * i]) is Some
    &&& bs[i] as int == 16 * (hex_value(object[2 + 2 * i])->0 as int) + (hex_value(
        object[3 + 2 * i],
    )->0 as int)
}

/// The decoded bytecode is read two digits at a time from just after the
/// `0x`: its `i`-th byte is sixteen times the value of the digit at
/// `2 + 2i` plus the value of the digit after it.
pub proof fn bytecode_bytes_are_digit_pairs(object: Seq<char>, bs: Seq<u8>)
    requires
        bytecode_of_object(object) == Ok::<Seq<u8>, Seq<char>>(bs),
    ensures
        object.len() == 2 + 2 * bs.len(),
        forall|i: int| 0 <= i < bs.len() ==> #[trigger] spells_byte(object, bs, i),
{
    let digits = object.subrange(2, object.len() as int);
    assert(bs == crate::artifact::decode_hex(digits));
    assert forall|i: int| 0 <= i < bs.len() implies #[trigger] spells_byte(object, bs, i) by {
        assert(digits[2 * i] == object[2 + 2 * i]);
        assert(digits[2 * i + 1] == object[3 + 2 * i]);
        only_hex_digits_have_values(digits[2 * i]);
        only_hex_digits_have_values(digits[2 * i + 1]);
    }
}

/// A batch that ends without error gives back the logs collected before it
/// followed by the node's logs, together with what the operation that
/// started it was handling: the new block and its rollback block for
/// `handle_block`, nothing more for `handle_batch_block`.
pub proof fn batch_gives_back_what_it_handles(
    s: CacheState,
    batch_size: u32,
    from: u64,
    to: u64,
    logs: Seq<Log>,
    handled: Option<(BlockView, Option<BlockView>)>,
    ls: Seq<Log>,
)
    ensures
        ({
            let step = resume_step(
                s,
                batch_size,
                TaskView::Batch { from, to, fill_cache: false, logs, handled },
                ReplyView::Logs(Ok(ls)),
            ).1;
            step == StepView::Done(
                Ok(
                    match handled {
                        None => OutcomeView::Logs(logs + ls),
                        Some((b, r)) => OutcomeView::Handled { block: b, rollback: r, logs: logs + ls },
                    },
                ),
            )
        }),
{
}
} // verus!

//! The parts of a node client that compute: turning a node's block into a
//! cache block, the block numbers whose hashes are looked up for a batch,
//! assembling a batch from those hashes, and the bookkeeping of retries.
use crate::block::{Block, BlockView, H256};
use crate::text::{append_decimal, decimal};
use vstd::prelude::*;

verus! {

/// A block as a node reports it: hash and number are missing while the
/// block is pending.
pub struct RpcBlock {
    pub hash: Option<H256>,
    pub parent_hash: H256,
    pub number: Option<u64>,
    pub transactions: Vec<H256>,
    pub nonce: Option<[u8; 8]>,
    pub logs_bloom: Option<[u8; 256]>,
}

/// The cache block of a node's block; fails on a pending block.
pub fn tracker_block_from_rpc(block: RpcBlock) -> (res: Result<Block, String>)
    ensures
        block.hash is None ==> res is Err && res->Err_0@ == "Missing block hash"@,
        block.hash is Some && block.number is None ==> res is Err && res->Err_0@
            == "Missing block number"@,
        block.hash is Some && block.number is Some ==> res is Ok && res->Ok_0@ == (BlockView {
            hash: block.hash->0,
            parent_hash: block.parent_hash,
            number: block.number->0,
            transactions: block.transactions@,
            nonce: block.nonce,
            logs_bloom: block.logs_bloom,
        }),
{
    let hash = match block.hash {
        Some(h) => h,
        None => {
            return Err(String::from_str("Missing block hash"));
        },
    };
    let number = match block.number {
        Some(n) => n,
        None => {
            return Err(String::from_str("Missing block number"));
        },
    };
    Ok(
        Block {
            hash,
            parent_hash: block.parent_hash,
            number,
            transactions: block.transactions,
            nonce: block.nonce,
            logs_bloom: block.logs_bloom,
        },
    )
}

/// The block numbers whose hashes are looked up to assemble the batch
/// `from..=to`: one below `from` up to `to`.
pub fn block_hash_queries(from: u64, to: u64) -> (numbers: Vec<u64>)
    requires
        from >= 1,
        to + 1 <= u64::MAX,
    ensures
        numbers@.len() == if to + 2 > from {
            to + 2 - from
        } else {
            0
        },
        forall|i: int| 0 <= i < numbers@.len() ==> #[trigger] numbers@[i] == from - 1 + i,
{
    let mut numbers: Vec<u64> = Vec::new();
    let lo = from - 1;
    let end = to + 1;
    let mut n = lo;
    while n < end
        invariant
            lo == from - 1,
            end == to + 1,
            lo <= n,
            lo < end ==> n <= end,
            lo >= end ==> n == lo,
            numbers@.len() == n - lo,
            forall|i: int| 0 <= i < numbers@.len() ==> #[trigger] numbers@[i] == lo + i,
        decreases end - n,
    {
        numbers.push(n);
        n = n + 1;
    }
    numbers
}

/// The all-zero hash, the parent hash of the first block of a batch.
pub open spec fn zero_hash() -> H256 {
    vstd::array::spec_array_fill_for_copy_type::<u8, 32>(0)
}

/// The minimal blocks assembled from the hashes looked up for one below
/// `from` up to the end of the batch: the block numbered `from + i` gets the
/// hash looked up for its own number (the `i + 1`-th) and, as parent hash,
/// the hash of the block before it in the batch (all zeros for the first).
pub fn blocks_from_hashes(from: u64, hashes: &Vec<H256>) -> (blocks: Vec<Block>)
    requires
        hashes@.len() < 2 || from + hashes@.len() - 2 <= u64::MAX,
    ensures
        blocks@.len() == if hashes@.len() > 0 {
            hashes@.len() - 1
        } else {
            0
        },
        forall|i: int|
            0 <= i < blocks@.len() ==> (#[trigger] blocks@[i])@ == (BlockView {
                hash: hashes@[i + 1],
                parent_hash: if i == 0 {
                    zero_hash()
                } else {
                    hashes@[i]
                },
                number: (from + i) as u64,
                transactions: Seq::empty(),
                nonce: None,
                logs_bloom: None,
            }),
{
    let mut blocks: Vec<Block> = Vec::new();
    let mut last_hash: H256 = [0u8; 32];
    let len = hashes.len();
    let mut index: usize = 0;
    while index + 1 < len
        invariant
            len == hashes@.len(),
            len < 2 || from + len - 2 <= u64::MAX,
            len > 0 ==> index <= len - 1,
            len == 0 ==> index == 0,
            blocks@.len() == index,
            last_hash == if index == 0 {
                zero_hash()
            } else {
                hashes@[index as int]
            },
            forall|i: int|
                0 <= i < blocks@.len() ==> (#[trigger] blocks@[i])@ == (BlockView {
                    hash: hashes@[i + 1],
                    parent_hash: if i == 0 {
                        zero_hash()
                    } else {
                        hashes@[i]
                    },
                    number: (from + i) as u64,
                    transactions: Seq::empty(),
                    nonce: None,
                    logs_bloom: None,
                }),
        decreases len - index,
    {
        blocks.push(
            Block {
                number: from + index as u64,
                hash: hashes[index + 1],
                parent_hash: last_hash,
                transactions: Vec::new(),
                nonce: None,
                logs_bloom: None,
            },
        );
        last_hash = hashes[index + 1];
        index = index + 1;
    }
    blocks
}


/// Retries of a node request: how many attempts are allowed, how many have
/// failed, and the error of the last failure.
pub struct RetryState {
    pub retries: u32,
    pub attempts: u32,
    pub last_error: String,
}

impl RetryState {
    /// No attempt made yet; the error to report if none is made is `Error`.
    pub fn new(retries: u32) -> (r: RetryState)
        ensures
            r.retries == retries,
            r.attempts == 0,
            r.last_error@ == "Error"@,
    {
        RetryState { retries, attempts: 0, last_error: String::from_str("Error") }
    }

    /// Whether another attempt is allowed.
    pub fn should_attempt(&self) -> (b: bool)
        ensures
            b == (self.attempts < self.retries),
    {
        self.attempts < self.retries
    }

    /// Records a failed attempt.
    pub fn record_failure(&mut self, error: String)
        requires
            old(self).attempts < old(self).retries,
        ensures
            final(self).retries == old(self).retries,
            final(self).attempts == old(self).attempts + 1,
            final(self).last_error == error,
    {
        self.attempts = self.attempts + 1;
        self.last_error = error;
    }

    /// The error given back when every attempt failed.
    pub fn failure_message(&self) -> (m: String)
        ensures
            m@ == "Failed "@ + decimal(self.retries as nat) + " times, last error is "@
                + self.last_error@,
    {
        let mut m = String::from_str("Failed ");
        append_decimal(&mut m, self.retries as u64);
        m.append(" times, last error is ");
        m.append(self.last_error.as_str());
        m
    }
}
} // verus!

//! The chain follower run by the command-line tool: its options, its full
//! block headers, its provider interface, and the cache that records the
//! newest block.
use crate::block::H256;
use crate::provider::RpcBlock;
use crate::text::{
    append_decimal, decimal, display_bloom, display_h256, display_h64, display_u64, fixed_hash_display,
};
use crate::types::{Address, BlockIdentifier, Log, Topic, ValueOrArray};
use std::collections::HashMap;
use vstd::prelude::*;

verus! {

/// Options of the chain follower.
#[derive(Debug, PartialEq, Eq)]
pub struct ChainCacheOptions {
    pub max_block_cached: u32,
    pub retries_count: u32,
    pub retry_delay_ms: u32,
    pub batch_size: u32,
}

/// A complete block header: hash, number, nonce and bloom are all known.
#[derive(Debug, PartialEq, Eq)]
pub struct Block {
    pub hash: H256,
    pub parent_hash: H256,
    pub number: u64,
    pub transactions: Vec<H256>,
    pub nonce: [u8; 8],
    pub logs_bloom: [u8; 256],
}

/// How a complete block header is written in the follower's messages.
pub open spec fn header_display(b: Block) -> Seq<char> {
    "(hash: "@ + fixed_hash_display(b.hash@) + ", parent_hash: "@ + fixed_hash_display(
        b.parent_hash@,
    ) + ", number: "@ + decimal(b.number as nat) + ", transactions_length: "@ + decimal(
        b.transactions@.len(),
    ) + ", nonce: "@ + fixed_hash_display(b.nonce@) + ", logs_bloom: "@ + fixed_hash_display(
        b.logs_bloom@,
    ) + ")"@
}

impl Block {
    /// The header as the follower writes it: hashes shortened to their
    /// first and last two bytes.
    pub fn to_display_string(&self) -> (s: String)
        ensures
            s@ == header_display(*self),
    {
        let mut s = String::from_str("(hash: ");
        s.append(display_h256(&self.hash).as_str());
        s.append(", parent_hash: ");
        s.append(display_h256(&self.parent_hash).as_str());
        s.append(", number: ");
        s.append(display_u64(self.number).as_str());
        s.append(", transactions_length: ");
        append_decimal(&mut s, self.transactions.len() as u64);
        s.append(", nonce: ");
        s.append(display_h64(&self.nonce).as_str());
        s.append(", logs_bloom: ");
        s.append(display_bloom(&self.logs_bloom).as_str());
        s.append(")");
        s
    }

    /// The complete header of a node's block; `None` when the node left the
    /// hash, the number, the nonce or the bloom out.
    pub fn from_rpc(block: RpcBlock) -> (res: Option<Block>)
        ensures
            res is Some <==> (block.hash is Some && block.number is Some && block.nonce is Some
                && block.logs_bloom is Some),
            res is Some ==> {
                let b = res->0;
                &&& b.hash == block.hash->0
                &&& b.parent_hash == block.parent_hash
                &&& b.number == block.number->0
                &&& b.transactions@ == block.transactions@
                &&& b.nonce == block.nonce->0
                &&& b.logs_bloom == block.logs_bloom->0
            },
    {
        let hash = match block.hash {
            Some(h) => h,
            None => {
                return None;
            },
        };
        let number = match block.number {
            Some(n) => n,
            None => {
                return None;
            },
        };
        let nonce = match block.nonce {
            Some(n) => n,
            None => {
                return None;
            },
        };
        let logs_bloom = match block.logs_bloom {
            Some(b) => b,
            None => {
                return None;
            },
        };
        Some(
            Block {
                hash,
                parent_hash: block.parent_hash,
                number,
                transactions: block.transactions,
                nonce,
                logs_bloom,
            },
        )
    }
}

/// Where a log query looks: a block range or one block.
#[derive(Debug, PartialEq, Eq)]
pub enum FilterBlockOption {
    Range { from_block: BlockIdentifier, to_block: BlockIdentifier },
    AtBlock(BlockIdentifier),
}

/// A log query: where to look, the emitting addresses and the topics.
#[derive(Debug, PartialEq, Eq)]
pub struct Filter {
    pub block_option: FilterBlockOption,
    pub address: Option<ValueOrArray<Address>>,
    pub topics: [Option<Topic>; 4],
}

/// What the chain follower needs from a node; implemented by its users.
pub trait RpcProvider {
    fn get_block(&self, number: BlockIdentifier) -> Result<Block, String>;

    fn get_logs(&self, filter: Filter) -> Result<Vec<Log>, String>;
}

/// The chain follower's cache: the newest block it was given.
pub struct BlockCache<Provider: RpcProvider> {
    pub rpc_provider: Provider,
    pub options: ChainCacheOptions,
    pub last_block: Option<Block>,
    pub blocks_map: HashMap<u64, Block>,
}

impl<Provider: RpcProvider> BlockCache<Provider> {
    /// Records `block` as the newest block.
    pub fn add_block(&mut self, block: Block)
        ensures
            final(self).last_block == Some(block),
            final(self).blocks_map@ == old(self).blocks_map@,
            final(self).options == old(self).options,
            final(self).rpc_provider == old(self).rpc_provider,
    {
        self.last_block = Some(block);
    }

    /// Starts following from `block`.
    pub fn initialize(&mut self, block: Block)
        ensures
            final(self).last_block == Some(block),
            final(self).blocks_map@ == old(self).blocks_map@,
            final(self).options == old(self).options,
            final(self).rpc_provider == old(self).rpc_provider,
    {
        self.add_block(block);
    }

    /// Takes a new block; the cache is left as it is.
    pub fn handle_block(&mut self, _block: Block)
        ensures
            final(self).last_block == old(self).last_block,
            final(self).blocks_map@ == old(self).blocks_map@,
            final(self).options == old(self).options,
            final(self).rpc_provider == old(self).rpc_provider,
    {
    }
}

} // verus!

use crate::block::H256;
use vstd::prelude::*;

verus! {

/// A 20-byte account address.
pub type Address = [u8; 20];

/// Either one value or a list of alternatives, as in a log filter.
#[derive(Debug, PartialEq, Eq)]
pub enum ValueOrArray<T> {
    Value(T),
    Array(Vec<T>),
}

/// One topic position of a log filter: a topic, a wildcard (`None`), or a
/// list of alternatives.
pub type Topic = ValueOrArray<Option<H256>>;

/// Which logs a node should report: the emitting addresses and the topics.
#[derive(Debug, PartialEq, Eq)]
pub struct Filter {
    pub address: Option<ValueOrArray<Address>>,
    pub topics: Option<[Option<Topic>; 4]>,
}

/// A log emitted by a transaction, as a node reports it.
///
/// Quantities that the node reports as 256-bit words are held as four
/// little-endian 64-bit limbs.
#[derive(Debug, Clone, PartialEq, Eq)]
pub struct Log {
    pub address: Address,
    pub topics: Vec<H256>,
    pub data: Vec<u8>,
    pub block_hash: Option<H256>,
    pub block_number: Option<u64>,
    pub transaction_hash: Option<H256>,
    pub transaction_index: Option<u64>,
    pub log_index: Option<[u64; 4]>,
    pub transaction_log_index: Option<[u64; 4]>,
    pub log_type: Option<String>,
    pub removed: Option<bool>,
}

/// How a block is asked for: the newest one, by number, or by hash.
#[derive(Debug, PartialEq, Eq)]
pub enum BlockIdentifier {
    Latest,
    Number(u64),
    Hash(H256),
}

/// The block range of a log query; both ends are included.
#[derive(Debug, PartialEq, Eq)]
pub enum FilterBlockOption {
    Range { from: u64, to: u64 },
}

} // verus!

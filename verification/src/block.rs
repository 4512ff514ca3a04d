use crate::text::{
    append_decimal, decimal, display_bloom, display_h256, display_h64, display_u64, fixed_hash_display,
};
use vstd::prelude::*;

verus! {

/// A 32-byte hash (block hash, transaction hash, topic).
pub type H256 = [u8; 32];

/// The parts of a block header that the cache keeps.
#[derive(Debug, PartialEq, Eq)]
pub struct Block {
    pub hash: H256,
    pub parent_hash: H256,
    pub number: u64,
    pub transactions: Vec<H256>,
    pub nonce: Option<[u8; 8]>,
    pub logs_bloom: Option<[u8; 256]>,
}

/// A block as a mathematical value.
pub struct BlockView {
    pub hash: H256,
    pub parent_hash: H256,
    pub number: u64,
    pub transactions: Seq<H256>,
    pub nonce: Option<[u8; 8]>,
    pub logs_bloom: Option<[u8; 256]>,
}

impl View for Block {
    type V = BlockView;

    open spec fn view(&self) -> BlockView {
        BlockView {
            hash: self.hash,
            parent_hash: self.parent_hash,
            number: self.number,
            transactions: self.transactions@,
            nonce: self.nonce,
            logs_bloom: self.logs_bloom,
        }
    }
}

impl Clone for Block {
    fn clone(&self) -> (res: Block)
        ensures
            res@ == self@,
    {
        let mut transactions: Vec<H256> = Vec::new();
        let n = self.transactions.len();
        for i in 0..n
            invariant
                n == self.transactions@.len(),
                transactions@ == self.transactions@.take(i as int),
        {
            transactions.push(self.transactions[i]);
            assert(transactions@ == self.transactions@.take(i + 1));
        }
        assert(transactions@ == self.transactions@);
        Block {
            hash: self.hash,
            parent_hash: self.parent_hash,
            number: self.number,
            transactions,
            nonce: self.nonce,
            logs_bloom: self.logs_bloom,
        }
    }
}

/// Compares two hashes byte by byte.
pub fn hash_eq(a: &H256, b: &H256) -> (res: bool)
    ensures
        res == (*a == *b),
{
    broadcast use vstd::array::group_array_axioms;
    let mut i: usize = 0;
    while i < 32
        invariant
            i <= 32,
            forall|j: int| 0 <= j < i ==> a[j] == b[j],
        decreases 32 - i,
    {
        if a[i] != b[i] {
            return false;
        }
        i = i + 1;
    }
    assert(*a =~= *b);
    true
}


/// How a block is written in the cache's messages.
pub open spec fn block_display(b: BlockView) -> Seq<char> {
    "(hash: "@ + fixed_hash_display(b.hash@) + ", parent_hash: "@ + fixed_hash_display(
        b.parent_hash@,
    ) + ", number: "@ + decimal(b.number as nat) + ", transactions_length: "@ + decimal(
        b.transactions.len(),
    ) + ", nonce: "@ + match b.nonce {
        Some(n) => fixed_hash_display(n@),
        None => "No nonce"@,
    } + ", logs_bloom: "@ + match b.logs_bloom {
        Some(l) => fixed_hash_display(l@),
        None => "No bloom"@,
    } + ")"@
}

impl Block {
    /// The block as the cache writes it in its messages: hashes shortened
    /// to their first and last two bytes.
    pub fn to_display_string(&self) -> (s: String)
        ensures
            s@ == block_display(self@),
    {
        let mut s = String::from_str("(hash: ");
        s.append(display_h256(&self.hash).as_str());
        s.append(", parent_hash: ");
        s.append(display_h256(&self.parent_hash).as_str());
        s.append(", number: ");
        s.append(display_u64(self.number).as_str());
        s.append(", transactions_length: ");
        append_decimal(&mut s, self.transactions.len() as u64);
        s.append(", nonce: ");
        match &self.nonce {
            Some(n) => s.append(display_h64(n).as_str()),
            None => s.append("No nonce"),
        }
        s.append(", logs_bloom: ");
        match &self.logs_bloom {
            Some(l) => s.append(display_bloom(l).as_str()),
            None => s.append("No bloom"),
        }
        s.append(")");
        s
    }
}
} // verus!

//! Blocks: an ordered batch of transactions sealed by a proof-of-work hash.

use crate::clock::unix_now;
use crate::encoding::dec_chars;
use crate::hashing::sha3_hex_of;
use crate::transaction::{tx_encoding, Transaction};
use vstd::prelude::*;

verus! {

/// A batch of transactions with its builder, intended chain position,
/// mining nonce, parent hash and own hash.
#[derive(Debug)]
pub struct Block {
    pub builder: Option<String>,
    pub sequence: Option<u64>,
    pub timestamp: usize,
    pub tx_count: usize,
    pub transactions: Vec<Transaction>,
    pub nonce: usize,
    pub prev_hash: String,
    pub hash: String,
}

impl Clone for Block {
    fn clone(&self) -> (r: Self)
        ensures
            r.builder == self.builder,
            r.sequence == self.sequence,
            r.timestamp == self.timestamp,
            r.tx_count == self.tx_count,
            r.transactions@ == self.transactions@,
            r.nonce == self.nonce,
            r.prev_hash == self.prev_hash,
            r.hash == self.hash,
    {
        let builder = match &self.builder {
            Some(addr) => Some(addr.clone()),
            None => None,
        };
        let transactions = self.transactions.clone();
        proof {
            assert forall|i: int| 0 <= i < self.transactions@.len() implies transactions@[i]
                == self.transactions@[i] by {}
            assert(transactions@ =~= self.transactions@);
        }
        Block {
            builder,
            sequence: self.sequence,
            timestamp: self.timestamp,
            tx_count: self.tx_count,
            transactions,
            nonce: self.nonce,
            prev_hash: self.prev_hash.clone(),
            hash: self.hash.clone(),
        }
    }
}

/// The concatenated encodings of a sequence of transactions, in order.
pub open spec fn txs_encoding(txs: Seq<Transaction>) -> Seq<char>
    decreases txs.len(),
{
    if txs.len() == 0 {
        Seq::<char>::empty()
    } else {
        tx_encoding(txs[0]) + txs_encoding(txs.drop_first())
    }
}

/// The preimage of a block's hash: builder, sequence, timestamp,
/// transaction count, nonce and parent hash, followed by the encoding of
/// every transaction in order. The block's own `hash` field is not part
/// of it.
pub open spec fn block_preimage(b: Block) -> Seq<char> {
    b.builder->Some_0@ + dec_chars(b.sequence->Some_0 as nat) + dec_chars(b.timestamp as nat)
        + dec_chars(b.tx_count as nat) + dec_chars(b.nonce as nat) + b.prev_hash@ + txs_encoding(
        b.transactions@,
    )
}

/// Field-for-field agreement of two blocks, with the transaction batches
/// compared by contents.
pub open spec fn block_fields_eq(a: Block, b: Block) -> bool {
    &&& a.builder == b.builder
    &&& a.sequence == b.sequence
    &&& a.timestamp == b.timestamp
    &&& a.tx_count == b.tx_count
    &&& a.transactions@ == b.transactions@
    &&& a.nonce == b.nonce
    &&& a.prev_hash == b.prev_hash
    &&& a.hash == b.hash
}

/// `b` with its mining nonce replaced.
pub open spec fn with_nonce(b: Block, n: int) -> Block {
    Block { nonce: n as usize, ..b }
}

/// Hash determinism: two blocks that agree on the hashed attributes have
/// the same hash preimage, so every node that recomputes the hash of a
/// block obtains a byte-identical string.
pub proof fn lemma_block_hash_deterministic(b1: Block, b2: Block)
    requires
        b1.builder == b2.builder,
        b1.sequence == b2.sequence,
        b1.timestamp == b2.timestamp,
        b1.tx_count == b2.tx_count,
        b1.transactions@ == b2.transactions@,
        b1.nonce == b2.nonce,
        b1.prev_hash@ == b2.prev_hash@,
    ensures
        block_preimage(b1) == block_preimage(b2),
        sha3_hex_of(block_preimage(b1)) == sha3_hex_of(block_preimage(b2)),
{
}

impl Block {
    /// The internal consistency of a block: the count matches the batch.
    pub open spec fn well_formed(self) -> bool {
        self.tx_count == self.transactions@.len()
    }
}

impl Default for Block {
    /// An empty block timestamped now: no builder, no sequence, no
    /// transactions, nonce zero, empty parent hash and empty own hash.
    fn default() -> (r: Self)
        ensures
            r.builder is None,
            r.sequence is None,
            r.tx_count == 0,
            r.transactions@ == Seq::<Transaction>::empty(),
            r.nonce == 0,
            r.prev_hash@ == Seq::<char>::empty(),
            r.hash@ == Seq::<char>::empty(),
            r.well_formed(),
    {
        let timestamp = unix_now();
        let r = Block {
            builder: None,
            sequence: None,
            timestamp,
            tx_count: 0,
            transactions: Vec::new(),
            nonce: 0,
            prev_hash: String::new(),
            hash: String::new(),
        };
        proof {
            assert(r.transactions@ =~= Seq::<Transaction>::empty());
        }
        r
    }
}

impl Block {
    pub fn builder(&self) -> (r: Option<String>)
        ensures
            r == self.builder,
    {
        match &self.builder {
            Some(addr) => Some(addr.clone()),
            None => None,
        }
    }

    pub fn sequence(&self) -> (r: Option<u64>)
        ensures
            r == self.sequence,
    {
        self.sequence
    }

    pub fn timestamp(&self) -> (r: usize)
        ensures
            r == self.timestamp,
    {
        self.timestamp
    }

    pub fn tx_count(&self) -> (r: usize)
        ensures
            r == self.tx_count,
    {
        self.tx_count
    }

    pub fn transactions(&self) -> (r: Vec<Transaction>)
        ensures
            r@ == self.transactions@,
    {
        let r = self.transactions.clone();
        proof {
            assert forall|i: int| 0 <= i < self.transactions@.len() implies r@[i]
                == self.transactions@[i] by {}
            assert(r@ =~= self.transactions@);
        }
        r
    }

    pub fn nonce(&self) -> (r: usize)
        ensures
            r == self.nonce,
    {
        self.nonce
    }

    pub fn prev_hash(&self) -> (r: String)
        ensures
            r == self.prev_hash,
    {
        self.prev_hash.clone()
    }

    pub fn hash(&self) -> (r: String)
        ensures
            r == self.hash,
    {
        self.hash.clone()
    }

    /// Advance the mining nonce.
    pub fn inc_nonce(&mut self)
        requires
            old(self).nonce < usize::MAX,
        ensures
            final (self).nonce == old(self).nonce + 1,
            final (self).builder == old(self).builder,
            final (self).sequence == old(self).sequence,
            final (self).timestamp == old(self).timestamp,
            final (self).tx_count == old(self).tx_count,
            final (self).transactions@ == old(self).transactions@,
            final (self).prev_hash == old(self).prev_hash,
            final (self).hash == old(self).hash,
    {
        self.nonce = self.nonce + 1;
    }

    /// The hashes of the batched transactions, in batch order.
    pub fn tx_hashes(&self) -> (r: Vec<String>)
        ensures
            r@.len() == self.transactions@.len(),
            forall|i: int| 0 <= i < r@.len() ==> r@[i]@ == self.transactions@[i].hash@,
    {
        let mut hashes: Vec<String> = Vec::new();
        let mut i: usize = 0;
        while i < self.transactions.len()
            invariant
                i <= self.transactions@.len(),
                hashes@.len() == i,
                forall|j: int| 0 <= j < i ==> hashes@[j]@ == self.transactions@[j].hash@,
            decreases self.transactions@.len() - i,
        {
            hashes.push(self.transactions[i].hash.clone());
            i = i + 1;
        }
        hashes
    }

    /// Prepend a transaction to the batch and count it.
    pub fn add_transaction(&mut self, tx: Transaction)
        requires
            old(self).well_formed(),
        ensures
            final (self).well_formed(),
            final (self).transactions@ == old(self).transactions@.insert(0, tx),
            final (self).tx_count == old(self).tx_count + 1,
            final (self).builder == old(self).builder,
            final (self).sequence == old(self).sequence,
            final (self).timestamp == old(self).timestamp,
            final (self).nonce == old(self).nonce,
            final (self).prev_hash == old(self).prev_hash,
            final (self).hash == old(self).hash,
    {
        self.transactions.insert(0, tx);
        let n = self.transactions.len();
        self.tx_count = n;
    }

    pub fn set_block_builder(&mut self, addr: String)
        ensures
            final (self).builder == Some(addr),
            final (self).sequence == old(self).sequence,
            final (self).timestamp == old(self).timestamp,
            final (self).tx_count == old(self).tx_count,
            final (self).transactions@ == old(self).transactions@,
            final (self).nonce == old(self).nonce,
            final (self).prev_hash == old(self).prev_hash,
            final (self).hash == old(self).hash,
    {
        self.builder = Some(addr);
    }

    pub fn set_block_sequence(&mut self, seq: u64)
        ensures
            final (self).sequence == Some(seq),
            final (self).builder == old(self).builder,
            final (self).timestamp == old(self).timestamp,
            final (self).tx_count == old(self).tx_count,
            final (self).transactions@ == old(self).transactions@,
            final (self).nonce == old(self).nonce,
            final (self).prev_hash == old(self).prev_hash,
            final (self).hash == old(self).hash,
    {
        self.sequence = Some(seq);
    }

    pub fn set_prev_hash(&mut self, prev_hash: String)
        ensures
            final (self).prev_hash == prev_hash,
            final (self).builder == old(self).builder,
            final (self).sequence == old(self).sequence,
            final (self).timestamp == old(self).timestamp,
            final (self).tx_count == old(self).tx_count,
            final (self).transactions@ == old(self).transactions@,
            final (self).nonce == old(self).nonce,
            final (self).hash == old(self).hash,
    {
        self.prev_hash = prev_hash;
    }

    pub fn set_hash(&mut self, hash: String)
        ensures
            final (self).hash == hash,
            final (self).builder == old(self).builder,
            final (self).sequence == old(self).sequence,
            final (self).timestamp == old(self).timestamp,
            final (self).tx_count == old(self).tx_count,
            final (self).transactions@ == old(self).transactions@,
            final (self).nonce == old(self).nonce,
            final (self).prev_hash == old(self).prev_hash,
    {
        self.hash = hash;
    }
}

} // verus!

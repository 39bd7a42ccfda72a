//! The node pipeline: transaction intake, block proposal, mining,
//! verification and chain commitment, one decision step per message.
//!
//! Each function here is one turn of the corresponding stage loop: the
//! driver hands it the received message and forwards whatever it returns.

use crate::address::Address;
use crate::block::{
    block_fields_eq, block_preimage, lemma_block_hash_deterministic, txs_encoding, with_nonce,
    Block,
};
use crate::chain::Blockchain;
use crate::encoding::{u64_to_string, usize_to_string};
use crate::hashing::{hash_meets_difficulty, sha3_hex, sha3_hex_of};
use crate::mempool::{pool_add, pool_has, pool_pickup, pool_remove, MemPool};
use crate::metadata::ChainMetaData;
use crate::stagepool::{
    lemma_stage_entry_member, stage_entry, stage_has, StagePool, StagedBlockStatus,
};
use crate::transaction::{tx_encoding_string, Transaction, TxExisting, TxPoolRecord};
use vstd::prelude::*;
use vstd::string::StringExecFns;

verus! {

/// A verification vote broadcast by a node's Verifier.
#[derive(Debug)]
pub struct BlockVerifyTx {
    pub block_hash: String,
    pub verified: bool,
}

impl Clone for BlockVerifyTx {
    fn clone(&self) -> (r: Self)
        ensures
            r == *self,
    {
        BlockVerifyTx { block_hash: self.block_hash.clone(), verified: self.verified }
    }
}

/// A vote counter one past `v`, held at the counter's ceiling.
pub open spec fn bump(v: u64) -> u64 {
    if v == u64::MAX {
        v
    } else {
        (v + 1) as u64
    }
}

/// The quorum threshold at chain height `seq`: two thirds, rounded down.
pub open spec fn quorum_threshold(seq: u64) -> int {
    seq * 2 / 3
}

/// A peer: its identity, its configuration, and the three pieces of
/// state that the pipeline stages share.
#[derive(Debug)]
pub struct Node {
    pub address: Address,
    pub metadata: ChainMetaData,
    pub mempool: MemPool,
    pub stagepool: StagePool,
    pub chain: Blockchain,
}

impl Node {
    /// The shared state invariants: pools unique by hash, chain linked.
    pub open spec fn wf(self) -> bool {
        self.mempool.wf() && self.stagepool.wf() && self.chain.wf()
    }

    /// Whether this node built the block.
    pub open spec fn is_own_block(self, b: Block) -> bool {
        b.builder matches Some(p) && p@ == self.address.0@
    }
}

/// What a Verifier checks of a mined block against one node's state: it
/// extends the node's leaf at the node's height, its hash recomputes
/// bit-for-bit and clears the difficulty, and every batched transaction
/// is known to the node's mempool.
pub open spec fn verifier_spec(n: Node, b: Block) -> bool {
    &&& b.prev_hash@ == n.chain.leaf@
    &&& b.sequence == Some(n.chain.sequence)
    &&& sha3_hex_of(block_preimage(b)) == b.hash@
    &&& (forall|i: int|
        0 <= i < b.transactions@.len() ==> pool_has(
            n.mempool.txpool@,
            (#[trigger] b.transactions@[i]).hash@,
        ))
    &&& hash_meets_difficulty(sha3_hex_of(block_preimage(b)), n.metadata.block_difficulty as nat)
}

/// Every block of the chain clears difficulty `d`.
pub open spec fn chain_meets_difficulty(c: Blockchain, d: nat) -> bool {
    forall|i: int| 0 <= i < c.blocks@.len() ==> hash_meets_difficulty(
        (#[trigger] c.blocks@[i]).hash@,
        d,
    )
}

/// Every staged block clears difficulty `d`.
pub open spec fn stage_meets_difficulty(s: Seq<StagedBlockStatus>, d: nat) -> bool {
    forall|i: int| 0 <= i < s.len() ==> hash_meets_difficulty((#[trigger] s[i]).block.hash@, d)
}

impl Node {
    /// A fresh peer with a random identity and empty state.
    pub fn new(metadata: ChainMetaData) -> (r: Self)
        ensures
            r.metadata == metadata,
            r.mempool.txpool@ == Seq::<TxPoolRecord>::empty(),
            r.stagepool.staged@ == Seq::<StagedBlockStatus>::empty(),
            r.chain.blocks@ == Seq::<Block>::empty(),
            r.chain.sequence == 0,
            r.chain.leaf@ == Seq::<char>::empty(),
            r.address.0@.len() == 40,
            r.address.1@.len() == 64,
            r.wf(),
    {
        Node {
            address: Address::new(),
            metadata,
            mempool: MemPool::default(),
            stagepool: StagePool::default(),
            chain: Blockchain::default(),
        }
    }

    /// Whether `hash` begins with `difficulty` `'0'` characters.
    #[verifier::loop_isolation(false)]
    pub fn verify_block_hash(hash: String, difficulty: usize) -> (r: bool)
        ensures
            r == hash_meets_difficulty(hash@, difficulty as nat),
    {
        let len = hash.as_str().unicode_len();
        if difficulty > len {
            return false;
        }
        let mut i: usize = 0;
        while i < difficulty
            invariant
                i <= difficulty,
                forall|j: int| 0 <= j < i ==> hash@[j] == '0',
            decreases difficulty - i,
        {
            if hash.as_str().get_char(i) != '0' {
                return false;
            }
            i = i + 1;
        }
        true
    }

    /// Recompute a block's hash from its attributes: the digest of the
    /// block's preimage encoding.
    #[verifier::loop_isolation(false)]
    pub fn calculate_block_hash(block: Block) -> (r: String)
        requires
            block.builder is Some,
            block.sequence is Some,
        ensures
            r@ == sha3_hex_of(block_preimage(block)),
    {
        let mut data = match &block.builder {
            Some(b) => b.clone(),
            None => {
                proof {
                    assert(false);
                }
                String::new()
            },
        };
        let seq_val = match block.sequence {
            Some(s) => s,
            None => {
                proof {
                    assert(false);
                }
                0
            },
        };
        let seq_str = u64_to_string(seq_val);
        data.append(seq_str.as_str());
        let ts = usize_to_string(block.timestamp);
        data.append(ts.as_str());
        let tc = usize_to_string(block.tx_count);
        data.append(tc.as_str());
        let nc = usize_to_string(block.nonce);
        data.append(nc.as_str());
        data.append(block.prev_hash.as_str());
        let ghost prefix = data@;
        let ghost txs = block.transactions@;
        proof {
            assert(txs.skip(0) =~= txs);
        }
        let mut i: usize = 0;
        while i < block.transactions.len()
            invariant
                i <= txs.len(),
                prefix + txs_encoding(txs) == data@ + txs_encoding(txs.skip(i as int)),
            decreases txs.len() - i,
        {
            proof {
                assert(txs.skip(i as int)[0] == txs[i as int]);
                assert(txs.skip(i as int).drop_first() =~= txs.skip(i as int + 1));
            }
            let enc = tx_encoding_string(&block.transactions[i]);
            data.append(enc.as_str());
            proof {
                assert(prefix + txs_encoding(txs) =~= data@ + txs_encoding(txs.skip(i as int + 1)));
            }
            i = i + 1;
        }
        proof {
            assert(txs.skip(i as int) =~= Seq::<Transaction>::empty());
            assert(data@ =~= prefix + txs_encoding(txs));
            assert(data@ =~= block_preimage(block));
        }
        sha3_hex(data.as_str())
    }

    /// TxReceiver step: store an incoming transaction in the mempool.
    pub fn add_tx_to_pool(&mut self, tx: Transaction)
        requires
            old(self).wf(),
        ensures
            final (self).wf(),
            final (self).mempool.txpool@ == pool_add(old(self).mempool.txpool@, tx),
            final (self).address == old(self).address,
            final (self).metadata == old(self).metadata,
            final (self).stagepool == old(self).stagepool,
            final (self).chain == old(self).chain,
    {
        let _ = self.mempool.add_transaction(tx);
    }

    /// Proposer step: build a candidate block carrying this node as its
    /// builder, the chain's height and leaf as its position, and up to
    /// `block_size` pending transactions, each prepended in pickup order.
    /// The nonce starts at zero and the hash is left for the Miner.
    #[verifier::loop_isolation(false)]
    pub fn build_block(&mut self) -> (r: Result<Block, String>)
        requires
            old(self).wf(),
        ensures
            *final (self) == *old(self),
            r matches Ok(b) && {
                &&& b.builder matches Some(p) && p@ == old(self).address.0@
                &&& b.sequence == Some(old(self).chain.sequence)
                &&& b.prev_hash@ == old(self).chain.leaf@
                &&& b.transactions@ == pool_pickup(
                    old(self).mempool.txpool@,
                    old(self).metadata.block_size as nat,
                ).reverse()
                &&& b.well_formed()
                &&& b.nonce == 0
                &&& b.hash@ == Seq::<char>::empty()
            },
    {
        let block_size = match self.metadata.get_block_size() {
            Ok(v) => v,
            Err(_) => {
                proof {
                    assert(false);
                }
                0
            },
        };
        let mut block = Block::default();
        block.set_block_builder(self.address.get_public_address().to_owned());
        let seq_val = match self.chain.get_sequence() {
            Ok(v) => v,
            Err(_) => {
                proof {
                    assert(false);
                }
                0
            },
        };
        block.set_block_sequence(seq_val);
        let picked = match self.mempool.pickup_transaction(block_size) {
            Ok(v) => v,
            Err(_) => {
                proof {
                    assert(false);
                }
                Vec::new()
            },
        };
        let ghost ps = picked@;
        proof {
            assert(ps.take(0).reverse() =~= Seq::<Transaction>::empty());
            assert(block.transactions@ =~= ps.take(0).reverse());
        }
        let mut i: usize = 0;
        while i < picked.len()
            invariant
                i <= ps.len(),
                block.well_formed(),
                block.builder matches Some(p) && p@ == self.address.0@,
                block.sequence == Some(self.chain.sequence),
                block.nonce == 0,
                block.hash@ == Seq::<char>::empty(),
                block.transactions@ == ps.take(i as int).reverse(),
            decreases ps.len() - i,
        {
            block.add_transaction(picked[i].clone());
            proof {
                assert(ps.take(i as int + 1).drop_last() =~= ps.take(i as int));
                assert(ps.take(i as int + 1).reverse() =~= ps.take(i as int).reverse().insert(
                    0,
                    ps[i as int],
                ));
            }
            i = i + 1;
        }
        proof {
            assert(ps.take(ps.len() as int) =~= ps);
        }
        let prev_hash = match self.chain.get_leaf() {
            Ok(v) => v,
            Err(_) => {
                proof {
                    assert(false);
                }
                String::new()
            },
        };
        block.set_prev_hash(prev_hash);
        Ok(block)
    }

    /// Miner heart: advance the nonce until the recomputed hash clears
    /// the difficulty, then seal the block with that hash. The nonce that
    /// succeeds is the least one, from the given block's nonce up, whose
    /// hash clears the difficulty; if no nonce up to the counter's
    /// ceiling does, the attempt fails and the block keeps its old hash.
    pub fn mining(&self, block: &mut Block) -> (r: Result<Block, String>)
        requires
            old(block).builder is Some,
            old(block).sequence is Some,
        ensures
            final (block).builder == old(block).builder,
            final (block).sequence == old(block).sequence,
            final (block).timestamp == old(block).timestamp,
            final (block).tx_count == old(block).tx_count,
            final (block).transactions@ == old(block).transactions@,
            final (block).prev_hash == old(block).prev_hash,
            final (block).nonce >= old(block).nonce,
            forall|m: int|
                old(block).nonce <= m < final (block).nonce ==> !hash_meets_difficulty(
                    sha3_hex_of(block_preimage(with_nonce(*old(block), m))),
                    self.metadata.block_difficulty as nat,
                ),
            r matches Ok(b) ==> {
                &&& block_fields_eq(b, *final (block))
                &&& final (block).hash@ == sha3_hex_of(block_preimage(*final (block)))
                &&& hash_meets_difficulty(
                    final (block).hash@,
                    self.metadata.block_difficulty as nat,
                )
            },
            r is Err ==> {
                &&& final (block).nonce == usize::MAX
                &&& final (block).hash == old(block).hash
                &&& !hash_meets_difficulty(
                    sha3_hex_of(block_preimage(with_nonce(*old(block), usize::MAX as int))),
                    self.metadata.block_difficulty as nat,
                )
            },
    {
        let difficulty = match self.metadata.get_block_difficulty() {
            Ok(v) => v,
            Err(_) => {
                proof {
                    assert(false);
                }
                0
            },
        };
        let mut hash_value = Node::calculate_block_hash(block.clone());
        loop
            invariant
                difficulty == self.metadata.block_difficulty,
                old(block).builder is Some,
                old(block).sequence is Some,
                block.builder == old(block).builder,
                block.sequence == old(block).sequence,
                block.timestamp == old(block).timestamp,
                block.tx_count == old(block).tx_count,
                block.transactions@ == old(block).transactions@,
                block.prev_hash == old(block).prev_hash,
                block.hash == old(block).hash,
                block.nonce >= old(block).nonce,
                hash_value@ == sha3_hex_of(block_preimage(*block)),
                block_preimage(*block) == block_preimage(with_nonce(*old(block), block.nonce as int)),
                forall|m: int|
                    old(block).nonce <= m < block.nonce ==> !hash_meets_difficulty(
                        sha3_hex_of(block_preimage(with_nonce(*old(block), m))),
                        difficulty as nat,
                    ),
            ensures
                hash_meets_difficulty(hash_value@, difficulty as nat),
                hash_value@ == sha3_hex_of(block_preimage(*block)),
            decreases usize::MAX - block.nonce,
        {
            let found = Node::verify_block_hash(hash_value.clone(), difficulty);
            if found {
                break ;
            }
            if block.nonce() == usize::MAX {
                return Err("mining exhausted the nonce space".to_owned());
            }
            block.inc_nonce();
            proof {
                lemma_block_hash_deterministic(
                    *block,
                    with_nonce(*old(block), block.nonce as int),
                );
            }
            hash_value = Node::calculate_block_hash(block.clone());
        }
        block.set_hash(hash_value);
        proof {
            lemma_block_hash_deterministic(*block, with_nonce(*old(block), block.nonce as int));
        }
        let sealed = block.clone();
        Ok(sealed)
    }

    /// Miner step for one proposed block: mine it, stage it with its one
    /// self-vote, and hand it back for broadcast to the fleet.
    pub fn mine_block(&mut self, block: Block) -> (r: Result<Block, String>)
        requires
            old(self).wf(),
            block.builder is Some,
            block.sequence is Some,
        ensures
            final (self).wf(),
            final (self).address == old(self).address,
            final (self).metadata == old(self).metadata,
            final (self).mempool == old(self).mempool,
            final (self).chain == old(self).chain,
            r matches Ok(b) ==> {
                &&& b.hash@ == sha3_hex_of(block_preimage(b))
                &&& hash_meets_difficulty(b.hash@, old(self).metadata.block_difficulty as nat)
                &&& b.builder == block.builder
                &&& b.sequence == block.sequence
                &&& b.timestamp == block.timestamp
                &&& b.tx_count == block.tx_count
                &&& b.transactions@ == block.transactions@
                &&& b.prev_hash == block.prev_hash
                &&& b.nonce >= block.nonce
                &&& stage_entry(final (self).stagepool.staged@, b.hash@) matches Some(e)
                    && e.votes == 1 && block_fields_eq(e.block, b)
                &&& forall|h2: Seq<char>|
                    h2 != b.hash@ ==> stage_entry(final (self).stagepool.staged@, h2)
                        == stage_entry(old(self).stagepool.staged@, h2)
            },
            r is Err ==> *final (self) == *old(self) && forall|m: int|
                block.nonce <= m <= usize::MAX ==> !hash_meets_difficulty(
                    sha3_hex_of(block_preimage(with_nonce(block, m))),
                    old(self).metadata.block_difficulty as nat,
                ),
    {
        let mut b = block;
        match self.mining(&mut b) {
            Ok(m) => {
                proof {
                    lemma_block_hash_deterministic(m, b);
                }
                self.stagepool.insert(m.clone());
                Ok(m)
            },
            Err(e) => Err(e),
        }
    }

    /// Verifier check of one mined block against this node's state.
    #[verifier::loop_isolation(false)]
    pub fn verify_block(&self, block: Block) -> (r: bool)
        requires
            block.builder is Some,
            block.sequence is Some,
        ensures
            r == verifier_spec(*self, block),
    {
        let leaf = match self.chain.get_leaf() {
            Ok(v) => v,
            Err(_) => {
                proof {
                    assert(false);
                }
                String::new()
            },
        };
        if block.prev_hash != leaf {
            return false;
        }
        let seq_val = match block.sequence {
            Some(s) => s,
            None => {
                proof {
                    assert(false);
                }
                0
            },
        };
        let chain_seq = match self.chain.get_sequence() {
            Ok(v) => v,
            Err(_) => {
                proof {
                    assert(false);
                }
                0
            },
        };
        if seq_val != chain_seq {
            return false;
        }
        let hash_value = Node::calculate_block_hash(block.clone());
        if hash_value != block.hash {
            return false;
        }
        let difficulty = match self.metadata.get_block_difficulty() {
            Ok(v) => v,
            Err(_) => {
                proof {
                    assert(false);
                }
                0
            },
        };
        let mut i: usize = 0;
        while i < block.transactions.len()
            invariant
                i <= block.transactions@.len(),
                forall|j: int|
                    0 <= j < i ==> pool_has(
                        self.mempool.txpool@,
                        (#[trigger] block.transactions@[j]).hash@,
                    ),
            decreases block.transactions@.len() - i,
        {
            let tx = block.transactions[i].clone();
            if matches!(self.mempool.existing_transaction(tx), TxExisting::NONEXISTING) {
                return false;
            }
            i = i + 1;
        }
        Node::verify_block_hash(hash_value, difficulty)
    }

    /// Verifier step for one mined block: a block this node built is
    /// skipped outright (it is already staged); any other block is staged
    /// with one self-vote, checked, and answered with a vote.
    pub fn verify_mined_block(&mut self, block: Block) -> (r: Option<BlockVerifyTx>)
        requires
            old(self).wf(),
            !old(self).is_own_block(block) ==> block.builder is Some && block.sequence is Some,
        ensures
            final (self).wf(),
            final (self).address == old(self).address,
            final (self).metadata == old(self).metadata,
            old(self).is_own_block(block) ==> r is None && *final (self) == *old(self),
            !old(self).is_own_block(block) ==> {
                &&& r matches Some(v) && v.block_hash@ == block.hash@ && v.verified
                    == verifier_spec(*old(self), block)
                &&& stage_entry(final (self).stagepool.staged@, block.hash@) matches Some(e)
                    && e.votes == 1 && block_fields_eq(e.block, block)
                &&& forall|h2: Seq<char>|
                    h2 != block.hash@ ==> stage_entry(final (self).stagepool.staged@, h2)
                        == stage_entry(old(self).stagepool.staged@, h2)
                &&& final (self).mempool == old(self).mempool
                &&& final (self).chain == old(self).chain
            },
    {
        let own = match &block.builder {
            Some(p) => *p == self.address.0,
            None => false,
        };
        if own {
            return None;
        }
        let staged = block.clone();
        self.stagepool.insert(staged);
        let checked = block.clone();
        proof {
            lemma_block_hash_deterministic(checked, block);
        }
        let verified = self.verify_block(checked);
        Some(BlockVerifyTx { block_hash: block.hash, verified })
    }

    /// ChainManager step for one vote: a vote for a staged block raises
    /// its count; past the quorum threshold the block leaves the stage
    /// pool, enters the chain if it extends the leaf, and its
    /// transactions leave the mempool. A vote for an unknown block is
    /// dropped.
    pub fn chain_manager(&mut self, vote: BlockVerifyTx)
        requires
            old(self).wf(),
        ensures
            final (self).wf(),
            final (self).address == old(self).address,
            final (self).metadata == old(self).metadata,
            stage_entry(old(self).stagepool.staged@, vote.block_hash@) is None ==> *final (self)
                == *old(self),
            stage_entry(old(self).stagepool.staged@, vote.block_hash@) matches Some(e) ==> {
                &&& bump(e.votes) <= quorum_threshold(old(self).chain.sequence) ==> {
                    &&& final (self).chain == old(self).chain
                    &&& final (self).mempool == old(self).mempool
                    &&& stage_entry(final (self).stagepool.staged@, vote.block_hash@) == Some(
                        StagedBlockStatus { block: e.block, votes: bump(e.votes) },
                    )
                    &&& forall|h2: Seq<char>|
                        h2 != vote.block_hash@ ==> stage_entry(final (self).stagepool.staged@, h2)
                            == stage_entry(old(self).stagepool.staged@, h2)
                }
                &&& bump(e.votes) > quorum_threshold(old(self).chain.sequence) ==> {
                    &&& !stage_has(final (self).stagepool.staged@, vote.block_hash@)
                    &&& forall|h2: Seq<char>|
                        h2 != vote.block_hash@ ==> stage_entry(final (self).stagepool.staged@, h2)
                            == stage_entry(old(self).stagepool.staged@, h2)
                    &&& old(self).chain.admits(e.block) ==> final (self).chain.blocks@ == old(
                        self,
                    ).chain.blocks@.push(e.block) && final (self).chain.leaf@ == e.block.hash@
                        && final (self).chain.sequence == old(self).chain.sequence + 1
                    &&& !old(self).chain.admits(e.block) ==> final (self).chain == old(self).chain
                    &&& final (self).mempool.txpool@ == pool_remove(
                        old(self).mempool.txpool@,
                        e.block.transactions@.map_values(|t: Transaction| t.hash@),
                    )
                    &&& forall|i: int|
                        0 <= i < e.block.transactions@.len() ==> !pool_has(
                            final (self).mempool.txpool@,
                            (#[trigger] e.block.transactions@[i]).hash@,
                        )
                }
            },
            // A block is committed only past the quorum threshold.
            final (self).chain.blocks@.len() != old(self).chain.blocks@.len() ==> (stage_entry(
                old(self).stagepool.staged@,
                vote.block_hash@,
            ) matches Some(e) && bump(e.votes) > quorum_threshold(old(self).chain.sequence)),
            // Difficulty invariant: if every chain block and every staged
            // block clears difficulty d, every chain block still does.
            forall|d: nat|
                chain_meets_difficulty(old(self).chain, d) && stage_meets_difficulty(
                    old(self).stagepool.staged@,
                    d,
                ) ==> #[trigger] chain_meets_difficulty(final (self).chain, d),
    {
        let ghost old_staged = self.stagepool.staged@;
        let ghost old_chain = self.chain;
        proof {
            if stage_has(old_staged, vote.block_hash@) {
                crate::stagepool::lemma_stage_entry_hash(old_staged, vote.block_hash@);
            }
        }
        let e = match self.stagepool.take(&vote.block_hash) {
            Some(e) => e,
            None => {
                return ;
            },
        };
        let nv: u64 = if e.votes == u64::MAX {
            e.votes
        } else {
            e.votes + 1
        };
        let chain_seq = match self.chain.get_sequence() {
            Ok(v) => v,
            Err(_) => {
                proof {
                    assert(false);
                }
                0
            },
        };
        let commit = (nv as u128) > (chain_seq as u128) * 2 / 3;
        proof {
            assert(commit == (bump(e.votes) > quorum_threshold(old(self).chain.sequence)));
        }
        if commit {
            proof {
                lemma_stage_entry_member(old_staged, vote.block_hash@);
            }
            let hashes = e.block.tx_hashes();
            proof {
                assert(crate::mempool::hash_views(hashes@) =~= e.block.transactions@.map_values(
                    |t: Transaction| t.hash@,
                ));
            }
            let _ = self.chain.add_block(e.block);
            let _ = self.mempool.remove_transactions(hashes);
            proof {
                assert forall|i: int| 0 <= i < e.block.transactions@.len() implies !pool_has(
                    self.mempool.txpool@,
                    (#[trigger] e.block.transactions@[i]).hash@,
                ) by {
                    let hs = e.block.transactions@.map_values(|t: Transaction| t.hash@);
                    assert(hs[i] == e.block.transactions@[i].hash@);
                    crate::mempool::lemma_pool_remove_entry(
                        old(self).mempool.txpool@,
                        hs,
                        e.block.transactions@[i].hash@,
                    );
                }
                assert forall|d: nat|
                    chain_meets_difficulty(old_chain, d) && stage_meets_difficulty(
                        old_staged,
                        d,
                    ) implies #[trigger] chain_meets_difficulty(self.chain, d) by {
                    let j = choose|j: int|
                        0 <= j < old_staged.len() && old_staged[j] == stage_entry(
                            old_staged,
                            vote.block_hash@,
                        )->Some_0;
                    assert(hash_meets_difficulty(old_staged[j].block.hash@, d));
                }
            }
        } else {
            self.stagepool.restage(StagedBlockStatus { block: e.block, votes: nv });
        }
    }
}

} // verus!

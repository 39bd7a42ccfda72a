//! The append-only chain of committed blocks, with its designated leaf.

use crate::block::Block;
use vstd::prelude::*;

verus! {

/// One node's committed chain: blocks in admission order, the hash of the
/// last admitted block, and the height.
#[derive(Debug)]
pub struct Blockchain {
    pub blocks: Vec<Block>,
    pub leaf: String,
    pub sequence: u64,
}

impl Blockchain {
    /// Chain well-formedness: the height equals the number of blocks, the
    /// leaf is the last block's hash (empty before any admission), and
    /// every later block's parent hash is its predecessor's hash.
    pub open spec fn wf(self) -> bool {
        &&& self.sequence == self.blocks@.len()
        &&& (self.blocks@.len() == 0 ==> self.leaf@ == Seq::<char>::empty())
        &&& (self.blocks@.len() > 0 ==> self.leaf@ == self.blocks@.last().hash@)
        &&& (forall|i: int|
            0 < i < self.blocks@.len() ==> self.blocks@[i].prev_hash@ == self.blocks@[
                i - 1].hash@)
    }

    /// Whether the chain admits a block: the chain is empty, or the block
    /// extends the current leaf.
    pub open spec fn admits(self, b: Block) -> bool {
        self.blocks@.len() == 0 || b.prev_hash@ == self.leaf@
    }
}

impl Default for Blockchain {
    /// The empty chain.
    fn default() -> (r: Self)
        ensures
            r.blocks@ == Seq::<Block>::empty(),
            r.leaf@ == Seq::<char>::empty(),
            r.sequence == 0,
            r.wf(),
    {
        let r = Blockchain { blocks: Vec::new(), leaf: String::new(), sequence: 0 };
        proof {
            assert(r.blocks@ =~= Seq::<Block>::empty());
        }
        r
    }
}

impl Blockchain {
    /// Accept a block if it extends the leaf (or the chain is empty): the
    /// block is appended, the leaf becomes its hash and the height grows
    /// by one. A block that does not extend the leaf leaves the chain
    /// unchanged. Either way the call reports success, as admission is
    /// silent about rejected blocks.
    pub fn add_block(&mut self, block: Block) -> (r: Result<(), String>)
        requires
            old(self).wf(),
        ensures
            final (self).wf(),
            r == Ok::<(), String>(()),
            old(self).admits(block) ==> final (self).blocks@ == old(self).blocks@.push(block)
                && final (self).leaf@ == block.hash@ && final (self).sequence == old(
                self,
            ).sequence + 1,
            !old(self).admits(block) ==> *final (self) == *old(self),
    {
        let accepts = self.blocks.len() == 0 || block.prev_hash == self.leaf;
        if accepts {
            self.leaf = block.hash.clone();
            self.blocks.push(block);
            let n = self.blocks.len();
            self.sequence = n as u64;
        }
        Ok(())
    }

    /// The hash of the last admitted block, or the empty string.
    pub fn get_leaf(&self) -> (r: Result<String, String>)
        ensures
            r == Ok::<String, String>(self.leaf),
    {
        Ok(self.leaf.clone())
    }

    /// The chain height.
    pub fn get_sequence(&self) -> (r: Result<u64, String>)
        ensures
            r == Ok::<u64, String>(self.sequence),
    {
        Ok(self.sequence)
    }
}

} // verus!

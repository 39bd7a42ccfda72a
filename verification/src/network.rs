//! The broadcast fabric, as the rest of the system observes it: one
//! inbox per registered node for each of the three message classes, and
//! a broadcast that appends a message to every inbox. The driver drains
//! these inboxes into the per-node channels.

use crate::block::{block_fields_eq, Block};
use crate::node::BlockVerifyTx;
use crate::transaction::Transaction;
use vstd::prelude::*;

verus! {

/// The contents of a vector of inboxes.
pub open spec fn inbox_views<T>(v: Vec<Vec<T>>) -> Seq<Seq<T>> {
    v@.map_values(|q: Vec<T>| q@)
}

/// One broadcast: the message appended to every inbox, nowhere else.
pub open spec fn broadcast_spec<T>(qs: Seq<Seq<T>>, m: T) -> Seq<Seq<T>> {
    qs.map_values(|q: Seq<T>| q.push(m))
}

/// Broadcast fidelity: a broadcast message reaches every registered
/// inbox exactly once, appended after what was already delivered, and
/// two broadcasts reach every inbox in send order.
pub proof fn lemma_broadcast_fidelity<T>(qs: Seq<Seq<T>>, m1: T, m2: T)
    ensures
        broadcast_spec(qs, m1).len() == qs.len(),
        forall|i: int| 0 <= i < qs.len() ==> #[trigger] broadcast_spec(qs, m1)[i] == qs[i].push(
            m1,
        ),
        forall|i: int| 0 <= i < qs.len() ==> #[trigger] broadcast_spec(
            broadcast_spec(qs, m1),
            m2,
        )[i] == qs[i].push(m1).push(m2),
{
}

/// The fabric's node-side endpoints: one inbox per registered node for
/// transactions, mined blocks, and verification votes.
#[derive(Debug)]
pub struct Channels {
    pub node_tx_inboxes: Vec<Vec<Transaction>>,
    pub node_mined_block_inboxes: Vec<Vec<Block>>,
    pub node_block_verify_tx_inboxes: Vec<Vec<BlockVerifyTx>>,
}

impl Default for Channels {
    /// A fabric with no registered nodes.
    fn default() -> (r: Self)
        ensures
            r.node_tx_inboxes@.len() == 0,
            r.node_mined_block_inboxes@.len() == 0,
            r.node_block_verify_tx_inboxes@.len() == 0,
    {
        Channels {
            node_tx_inboxes: Vec::new(),
            node_mined_block_inboxes: Vec::new(),
            node_block_verify_tx_inboxes: Vec::new(),
        }
    }
}

impl Channels {
    /// Register `node_count` nodes: every class gets one empty inbox per
    /// node. To be called exactly once, before any broadcast.
    #[verifier::loop_isolation(false)]
    pub fn set_pipeline(&mut self, node_count: usize)
        ensures
            final (self).node_tx_inboxes@.len() == node_count,
            final (self).node_mined_block_inboxes@.len() == node_count,
            final (self).node_block_verify_tx_inboxes@.len() == node_count,
            forall|i: int|
                0 <= i < node_count ==> final (self).node_tx_inboxes@[i]@
                    == Seq::<Transaction>::empty(),
            forall|i: int|
                0 <= i < node_count ==> final (self).node_mined_block_inboxes@[i]@
                    == Seq::<Block>::empty(),
            forall|i: int|
                0 <= i < node_count ==> final (self).node_block_verify_tx_inboxes@[i]@
                    == Seq::<BlockVerifyTx>::empty(),
    {
        self.node_tx_inboxes = Vec::new();
        self.node_mined_block_inboxes = Vec::new();
        self.node_block_verify_tx_inboxes = Vec::new();
        let mut i: usize = 0;
        while i < node_count
            invariant
                i <= node_count,
                self.node_tx_inboxes@.len() == i,
                self.node_mined_block_inboxes@.len() == i,
                self.node_block_verify_tx_inboxes@.len() == i,
                forall|j: int|
                    0 <= j < i ==> self.node_tx_inboxes@[j]@ == Seq::<Transaction>::empty(),
                forall|j: int|
                    0 <= j < i ==> self.node_mined_block_inboxes@[j]@ == Seq::<Block>::empty(),
                forall|j: int|
                    0 <= j < i ==> self.node_block_verify_tx_inboxes@[j]@ == Seq::<
                        BlockVerifyTx,
                    >::empty(),
            decreases node_count - i,
        {
            let txq: Vec<Transaction> = Vec::new();
            proof {
                assert(txq@ =~= Seq::<Transaction>::empty());
            }
            self.node_tx_inboxes.push(txq);
            let bq: Vec<Block> = Vec::new();
            proof {
                assert(bq@ =~= Seq::<Block>::empty());
            }
            self.node_mined_block_inboxes.push(bq);
            let vq: Vec<BlockVerifyTx> = Vec::new();
            proof {
                assert(vq@ =~= Seq::<BlockVerifyTx>::empty());
            }
            self.node_block_verify_tx_inboxes.push(vq);
            i = i + 1;
        }
    }

    /// Broadcast a client transaction to every node inbox.
    #[verifier::loop_isolation(false)]
    pub fn broadcast_transaction(&mut self, message: &Transaction)
        ensures
            inbox_views(final (self).node_tx_inboxes) == broadcast_spec(
                inbox_views(old(self).node_tx_inboxes),
                *message,
            ),
            final (self).node_mined_block_inboxes == old(self).node_mined_block_inboxes,
            final (self).node_block_verify_tx_inboxes == old(self).node_block_verify_tx_inboxes,
    {
        let mut i: usize = 0;
        while i < self.node_tx_inboxes.len()
            invariant
                i <= self.node_tx_inboxes@.len(),
                self.node_tx_inboxes@.len() == old(self).node_tx_inboxes@.len(),
                self.node_mined_block_inboxes == old(self).node_mined_block_inboxes,
                self.node_block_verify_tx_inboxes == old(self).node_block_verify_tx_inboxes,
                forall|j: int|
                    i <= j < self.node_tx_inboxes@.len() ==> self.node_tx_inboxes@[j] == old(
                        self,
                    ).node_tx_inboxes@[j],
                forall|j: int|
                    0 <= j < i ==> self.node_tx_inboxes@[j]@ == old(
                        self,
                    ).node_tx_inboxes@[j]@.push(*message),
            decreases self.node_tx_inboxes@.len() - i,
        {
            let m = message.clone();
            self.node_tx_inboxes[i].push(m);
            i = i + 1;
        }
        proof {
            assert(inbox_views(self.node_tx_inboxes) =~= broadcast_spec(
                inbox_views(old(self).node_tx_inboxes),
                *message,
            ));
        }
    }

    /// Broadcast a mined block to every node inbox: each inbox keeps what
    /// it held and gains one copy of the block, field for field, at the
    /// end. (Blocks are compared by contents: a delivered copy carries
    /// its own transaction vector.)
    #[verifier::loop_isolation(false)]
    pub fn broadcast_mined_block(&mut self, message: &Block)
        ensures
            final (self).node_mined_block_inboxes@.len() == old(
                self,
            ).node_mined_block_inboxes@.len(),
            forall|i: int|
                0 <= i < old(self).node_mined_block_inboxes@.len() ==> {
                    &&& (#[trigger] final (self).node_mined_block_inboxes@[i])@.len() == old(
                        self,
                    ).node_mined_block_inboxes@[i]@.len() + 1
                    &&& forall|k: int|
                        0 <= k < old(self).node_mined_block_inboxes@[i]@.len()
                            ==> final (self).node_mined_block_inboxes@[i]@[k]
                            == old(self).node_mined_block_inboxes@[i]@[k]
                    &&& block_fields_eq(
                        final (self).node_mined_block_inboxes@[i]@.last(),
                        *message,
                    )
                },
            final (self).node_tx_inboxes == old(self).node_tx_inboxes,
            final (self).node_block_verify_tx_inboxes == old(self).node_block_verify_tx_inboxes,
    {
        let mut i: usize = 0;
        while i < self.node_mined_block_inboxes.len()
            invariant
                i <= self.node_mined_block_inboxes@.len(),
                self.node_mined_block_inboxes@.len() == old(self).node_mined_block_inboxes@.len(),
                self.node_tx_inboxes == old(self).node_tx_inboxes,
                self.node_block_verify_tx_inboxes == old(self).node_block_verify_tx_inboxes,
                forall|j: int|
                    i <= j < self.node_mined_block_inboxes@.len() ==>
                        self.node_mined_block_inboxes@[j] == old(
                        self,
                    ).node_mined_block_inboxes@[j],
                forall|j: int|
                    0 <= j < i ==> {
                        &&& (#[trigger] self.node_mined_block_inboxes@[j])@.len() == old(
                            self,
                        ).node_mined_block_inboxes@[j]@.len() + 1
                        &&& forall|k: int|
                            0 <= k < old(self).node_mined_block_inboxes@[j]@.len() ==>
                                self.node_mined_block_inboxes@[j]@[k] == old(
                                self,
                            ).node_mined_block_inboxes@[j]@[k]
                        &&& block_fields_eq(
                            self.node_mined_block_inboxes@[j]@.last(),
                            *message,
                        )
                    },
            decreases self.node_mined_block_inboxes@.len() - i,
        {
            let m = message.clone();
            proof {
                assert(m.transactions@ == message.transactions@);
            }
            self.node_mined_block_inboxes[i].push(m);
            i = i + 1;
        }
    }

    /// Broadcast a verification vote to every node inbox.
    #[verifier::loop_isolation(false)]
    pub fn broadcast_block_verify_tx(&mut self, message: &BlockVerifyTx)
        ensures
            inbox_views(final (self).node_block_verify_tx_inboxes) == broadcast_spec(
                inbox_views(old(self).node_block_verify_tx_inboxes),
                *message,
            ),
            final (self).node_tx_inboxes == old(self).node_tx_inboxes,
            final (self).node_mined_block_inboxes == old(self).node_mined_block_inboxes,
    {
        let mut i: usize = 0;
        while i < self.node_block_verify_tx_inboxes.len()
            invariant
                i <= self.node_block_verify_tx_inboxes@.len(),
                self.node_block_verify_tx_inboxes@.len() == old(
                    self,
                ).node_block_verify_tx_inboxes@.len(),
                self.node_tx_inboxes == old(self).node_tx_inboxes,
                self.node_mined_block_inboxes == old(self).node_mined_block_inboxes,
                forall|j: int|
                    i <= j < self.node_block_verify_tx_inboxes@.len() ==>
                        self.node_block_verify_tx_inboxes@[j] == old(
                        self,
                    ).node_block_verify_tx_inboxes@[j],
                forall|j: int|
                    0 <= j < i ==> self.node_block_verify_tx_inboxes@[j]@ == old(
                        self,
                    ).node_block_verify_tx_inboxes@[j]@.push(*message),
            decreases self.node_block_verify_tx_inboxes@.len() - i,
        {
            let m = message.clone();
            self.node_block_verify_tx_inboxes[i].push(m);
            i = i + 1;
        }
        proof {
            assert(inbox_views(self.node_block_verify_tx_inboxes) =~= broadcast_spec(
                inbox_views(old(self).node_block_verify_tx_inboxes),
                *message,
            ));
        }
    }
}

} // verus!

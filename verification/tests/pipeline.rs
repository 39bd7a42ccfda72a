//! Scenario tests that drive the node pipeline message by message, the
//! way the driver does: intake, proposal, mining, verification, votes.

use mini_chain::metadata::ChainMetaData;
use mini_chain::network::Channels;
use mini_chain::node::{BlockVerifyTx, Node};
use mini_chain::transaction::{Transaction, TxExisting};

fn tx_named(hash: &str) -> Transaction {
    let mut tx = Transaction::new(String::from("dest"), 20);
    tx.hash = String::from(hash);
    tx
}

fn meta(node_count: usize, block_size: usize, difficulty: usize) -> ChainMetaData {
    ChainMetaData::new(node_count, 1, 50, 100, 500, 400, block_size, difficulty)
}

#[test]
fn single_node_happy_path() {
    let mut node = Node::new(meta(1, 5, 1));
    node.add_tx_to_pool(tx_named("t1"));
    let proposed = node.build_block().unwrap();
    assert_eq!(proposed.sequence(), Some(0));
    assert_eq!(proposed.prev_hash(), "");
    assert_eq!(proposed.tx_count(), 1);
    assert_eq!(proposed.hash(), "");

    let mined = node.mine_block(proposed).unwrap();
    assert!(mined.hash().starts_with("0"));

    // At height 0 the quorum threshold is 0, so the first vote commits.
    node.chain_manager(BlockVerifyTx { block_hash: mined.hash(), verified: true });
    assert_eq!(node.chain.get_sequence().unwrap(), 1);
    assert_eq!(node.chain.get_leaf().unwrap(), mined.hash());
    assert!(node.chain.get_leaf().unwrap().starts_with("0"));
    // The committed block's transactions left the mempool.
    assert!(matches!(
        node.mempool.existing_transaction(tx_named("t1")),
        TxExisting::NONEXISTING
    ));
}

#[test]
fn three_node_agreement() {
    let m = meta(3, 20, 2);
    let mut nodes = vec![Node::new(m), Node::new(m), Node::new(m)];
    let mut channels = Channels::default();
    channels.set_pipeline(3);

    // A client transaction reaches every node's mempool.
    channels.broadcast_transaction(&tx_named("t1"));
    for (i, node) in nodes.iter_mut().enumerate() {
        for tx in channels.node_tx_inboxes[i].clone() {
            node.add_tx_to_pool(tx);
        }
    }

    // One node proposes and mines; the mined block is broadcast.
    let proposed = nodes[0].build_block().unwrap();
    let mined = nodes[0].mine_block(proposed).unwrap();
    channels.broadcast_mined_block(&mined);

    // The builder skips its own block; the two peers verify and vote.
    let mut votes = Vec::new();
    for i in 0..3 {
        for block in channels.node_mined_block_inboxes[i].clone() {
            if let Some(vote) = nodes[i].verify_mined_block(block) {
                votes.push(vote);
            }
        }
    }
    assert_eq!(votes.len(), 2);
    assert!(votes.iter().all(|v| v.verified));

    // Votes are broadcast; every node tallies and commits the same block.
    for vote in &votes {
        channels.broadcast_block_verify_tx(vote);
    }
    for i in 0..3 {
        for vote in channels.node_block_verify_tx_inboxes[i].clone() {
            nodes[i].chain_manager(vote);
        }
    }
    for node in &nodes {
        assert_eq!(node.chain.get_sequence().unwrap(), 1);
        let leaf = node.chain.get_leaf().unwrap();
        assert_eq!(leaf, mined.hash());
        assert!(leaf.starts_with("00"));
    }
}

#[test]
fn insufficient_quorum_leaves_block_staged() {
    let mut node = Node::new(meta(4, 20, 1));

    // Three blocks commit while the threshold still trails the votes:
    // thresholds 0, 0 and 1 against two votes (self-vote plus one).
    for height in 0..3u64 {
        let proposed = node.build_block().unwrap();
        let mined = node.mine_block(proposed).unwrap();
        node.chain_manager(BlockVerifyTx { block_hash: mined.hash(), verified: true });
        assert_eq!(node.chain.get_sequence().unwrap(), height + 1);
    }

    // At height 3 the threshold is 2: two supporting votes are not enough.
    let proposed = node.build_block().unwrap();
    let mined = node.mine_block(proposed).unwrap();
    node.chain_manager(BlockVerifyTx { block_hash: mined.hash(), verified: true });
    assert_eq!(node.chain.get_sequence().unwrap(), 3);
    assert!(node
        .stagepool
        .staged
        .iter()
        .any(|e| e.block.hash() == mined.hash() && e.votes == 2));

    // A third vote clears the threshold and commits.
    node.chain_manager(BlockVerifyTx { block_hash: mined.hash(), verified: true });
    assert_eq!(node.chain.get_sequence().unwrap(), 4);
    assert_eq!(node.chain.get_leaf().unwrap(), mined.hash());
}

#[test]
fn proposer_builds_empty_candidate_from_empty_mempool() {
    // The wall-clock build budget lives in the driver; what the library
    // guarantees is that an empty mempool yields an empty candidate.
    let mut node = Node::new(meta(1, 5, 1));
    let proposed = node.build_block().unwrap();
    assert_eq!(proposed.tx_count(), 0);
    assert!(proposed.transactions().is_empty());
}

#[test]
fn duplicate_tx_suppression() {
    let mut node = Node::new(meta(1, 5, 1));
    for _ in 0..100 {
        node.add_tx_to_pool(tx_named("same"));
    }
    assert_eq!(node.mempool.txpool.len(), 1);
}

#[test]
fn difficulty_escalation() {
    let mut node = Node::new(meta(1, 5, 4));
    node.add_tx_to_pool(tx_named("t1"));
    let proposed = node.build_block().unwrap();
    let mined = node.mine_block(proposed).unwrap();
    assert!(mined.hash().starts_with("0000"));
}

#[test]
fn self_exclusion_on_verify() {
    let m = meta(2, 5, 1);
    let mut builder = Node::new(m);
    let mut peer = Node::new(m);

    let proposed = builder.build_block().unwrap();
    let mined = builder.mine_block(proposed).unwrap();

    // The builder does not re-verify its own block.
    let own_votes = builder.verify_mined_block(mined.clone());
    assert!(own_votes.is_none());

    // A peer stages it and votes.
    let vote = peer.verify_mined_block(mined.clone()).unwrap();
    assert_eq!(vote.block_hash, mined.hash());
    assert!(vote.verified);
    assert!(peer.stagepool.staged.iter().any(|e| e.block.hash() == mined.hash()));
}

#[test]
fn verifier_rejects_unknown_transactions_and_tampering() {
    let m = meta(2, 5, 1);
    let mut builder = Node::new(m);
    let mut peer = Node::new(m);

    builder.add_tx_to_pool(tx_named("t1"));
    let proposed = builder.build_block().unwrap();
    let mined = builder.mine_block(proposed).unwrap();

    // The peer has never seen t1: the vote says no.
    let vote = peer.verify_mined_block(mined.clone()).unwrap();
    assert!(!vote.verified);

    // Once the peer knows the transaction, the same block verifies.
    peer.add_tx_to_pool(tx_named("t1"));
    assert!(peer.verify_block(mined.clone()));

    // A tampered nonce no longer matches the sealed hash.
    let mut tampered = mined.clone();
    tampered.inc_nonce();
    assert!(!peer.verify_block(tampered));
}

#[test]
fn vote_tally_ignores_the_verified_flag() {
    // The tally counts every vote for a staged block, dissenting ones
    // included: a dissenting vote still drives the count past quorum.
    let mut node = Node::new(meta(1, 5, 1));
    let proposed = node.build_block().unwrap();
    let mined = node.mine_block(proposed).unwrap();
    node.chain_manager(BlockVerifyTx { block_hash: mined.hash(), verified: false });
    assert_eq!(node.chain.get_sequence().unwrap(), 1);
}

#[test]
fn vote_for_unknown_block_is_dropped() {
    let mut node = Node::new(meta(1, 5, 1));
    node.chain_manager(BlockVerifyTx { block_hash: String::from("nothing"), verified: true });
    assert_eq!(node.chain.get_sequence().unwrap(), 0);
    assert!(node.stagepool.staged.is_empty());
}

#[test]
fn mining_fails_when_nonce_space_is_exhausted() {
    // With the nonce already at its ceiling and a difficulty no hash of
    // this block can clear, the one remaining trial fails and mining
    // reports the exhaustion instead of sealing a block.
    let mut node = Node::new(meta(1, 5, 64));
    let mut proposed = node.build_block().unwrap();
    proposed.nonce = usize::MAX;
    let result = node.mine_block(proposed);
    assert!(result.is_err());
    assert!(node.stagepool.staged.is_empty());
    assert_eq!(node.chain.get_sequence().unwrap(), 0);
}

#[test]
fn proposer_respects_block_size() {
    let mut node = Node::new(meta(1, 2, 1));
    for name in ["a", "b", "c", "d"] {
        node.add_tx_to_pool(tx_named(name));
    }
    let proposed = node.build_block().unwrap();
    assert_eq!(proposed.tx_count(), 2);
    // Prepended in pickup order: the batch reads back in reverse.
    assert_eq!(proposed.tx_hashes(), vec!["b", "a"]);
}

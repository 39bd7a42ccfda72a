//! Unit tests for the data model: encodings, hashing shape, addresses,
//! pools, blocks, chains and the broadcast fabric.

use mini_chain::address::Address;
use mini_chain::block::Block;
use mini_chain::chain::Blockchain;
use mini_chain::encoding::{u64_to_string, usize_to_string};
use mini_chain::mempool::MemPool;
use mini_chain::metadata::ChainMetaData;
use mini_chain::network::Channels;
use mini_chain::node::{BlockVerifyTx, Node};
use mini_chain::transaction::{Transaction, TxExisting, TxStatus};

fn tx_with_hash(hash: &str) -> Transaction {
    let mut tx = Transaction::new(String::from("dest"), 20);
    tx.hash = String::from(hash);
    tx
}

#[test]
fn decimal_encoding_exact_values() {
    assert_eq!(usize_to_string(0), "0");
    assert_eq!(usize_to_string(7), "7");
    assert_eq!(usize_to_string(10), "10");
    assert_eq!(usize_to_string(1234567890), "1234567890");
    assert_eq!(u64_to_string(0), "0");
    assert_eq!(u64_to_string(18446744073709551615), "18446744073709551615");
}

#[test]
fn difficulty_check_is_a_zero_prefix_check() {
    assert!(Node::verify_block_hash(String::from("00abc"), 0));
    assert!(Node::verify_block_hash(String::from("00abc"), 1));
    assert!(Node::verify_block_hash(String::from("00abc"), 2));
    assert!(!Node::verify_block_hash(String::from("00abc"), 3));
    assert!(!Node::verify_block_hash(String::from("ab"), 1));
    assert!(Node::verify_block_hash(String::from(""), 0));
    // A demand longer than the hash itself can never be met.
    assert!(!Node::verify_block_hash(String::from("00"), 3));
}

#[test]
fn address_halves_have_pinned_lengths() {
    let addr = Address::new();
    assert_eq!(addr.get_public_address().len(), 40);
    assert_eq!(addr.1.len(), 64);
    assert!(addr.0.chars().all(|c| c.is_ascii_alphanumeric()));
    assert!(addr.1.chars().all(|c| c.is_ascii_alphanumeric()));
}

#[test]
fn address_signature_is_a_digest_not_the_input() {
    let addr = Address::new();
    let sig = addr.get_signature();
    assert_eq!(sig.len(), 64);
    assert!(sig.chars().all(|c| c.is_ascii_hexdigit() && !c.is_ascii_uppercase()));
    // Deterministic for one identity, and not the concatenated halves.
    assert_eq!(sig, addr.get_signature());
    let halves = format!("{}{}", addr.0, addr.1);
    assert_ne!(sig, halves);
    // Another identity signs differently.
    let other = Address::new();
    assert_ne!(sig, other.get_signature());
}

#[test]
fn transaction_hash_is_deterministic_and_shaped() {
    let mut tx = Transaction::new(String::from("dest"), 20);
    tx.timestamp = 1700000000;
    let h1 = Transaction::calculate_hash(tx.clone());
    let h2 = Transaction::calculate_hash(tx.clone());
    assert_eq!(h1, h2);
    assert_eq!(h1.len(), 64);
    assert!(h1.chars().all(|c| c.is_ascii_hexdigit() && !c.is_ascii_uppercase()));
    // A different nonce hashes differently.
    tx.nonce = 1;
    assert_ne!(h1, Transaction::calculate_hash(tx.clone()));
}

#[test]
fn sign_transaction_sets_provenance_only() {
    let mut tx = Transaction::new(String::from("dest"), 20);
    tx.sign_transaction(String::from("signer"), String::from("sig"));
    assert_eq!(tx.signer, "signer");
    assert_eq!(tx.signature, "sig");
    assert_eq!(tx.payload.addr, "dest");
    assert_eq!(tx.payload.amount, 20);
    assert_eq!(tx.nonce, 0);
    assert_eq!(tx.hash, "");
}

#[test]
fn block_hash_depends_on_attributes_not_on_stored_hash() {
    let mut block = Block::default();
    block.set_block_builder(String::from("builder"));
    block.set_block_sequence(0);
    block.set_prev_hash(String::from(""));
    let h1 = Node::calculate_block_hash(block.clone());
    assert_eq!(h1.len(), 64);
    // Byte-identical on recomputation: what every peer relies on.
    assert_eq!(h1, Node::calculate_block_hash(block.clone()));
    // The stored hash field is no part of the preimage.
    block.set_hash(String::from("whatever"));
    assert_eq!(h1, Node::calculate_block_hash(block.clone()));
    // The nonce is.
    block.inc_nonce();
    assert_ne!(h1, Node::calculate_block_hash(block.clone()));
}

#[test]
fn block_prepends_transactions_in_pickup_order() {
    let mut block = Block::default();
    assert_eq!(block.tx_count(), 0);
    assert_eq!(block.nonce(), 0);
    assert!(block.builder().is_none());
    assert!(block.sequence().is_none());
    block.add_transaction(tx_with_hash("t1"));
    block.add_transaction(tx_with_hash("t2"));
    block.add_transaction(tx_with_hash("t3"));
    assert_eq!(block.tx_count(), 3);
    let hashes = block.tx_hashes();
    assert_eq!(hashes, vec!["t3", "t2", "t1"]);
    assert_eq!(block.transactions()[0].hash, "t3");
}

#[test]
fn chain_admission_follows_the_leaf() {
    let mut chain = Blockchain::default();
    assert_eq!(chain.get_sequence().unwrap(), 0);
    assert_eq!(chain.get_leaf().unwrap(), "");

    let mut b1 = Block::default();
    b1.set_prev_hash(String::from("anything"));
    b1.set_hash(String::from("h1"));
    // An empty chain admits any block.
    chain.add_block(b1).unwrap();
    assert_eq!(chain.get_leaf().unwrap(), "h1");
    assert_eq!(chain.get_sequence().unwrap(), 1);

    // A block that does not extend the leaf is ignored.
    let mut stale = Block::default();
    stale.set_prev_hash(String::from("elsewhere"));
    stale.set_hash(String::from("h2"));
    chain.add_block(stale).unwrap();
    assert_eq!(chain.get_leaf().unwrap(), "h1");
    assert_eq!(chain.get_sequence().unwrap(), 1);

    // A block that extends the leaf is admitted and becomes the leaf.
    let mut b2 = Block::default();
    b2.set_prev_hash(String::from("h1"));
    b2.set_hash(String::from("h2"));
    chain.add_block(b2).unwrap();
    assert_eq!(chain.get_leaf().unwrap(), "h2");
    assert_eq!(chain.get_sequence().unwrap(), 2);
}

#[test]
fn mempool_is_keyed_by_hash() {
    let mut pool = MemPool::default();
    pool.add_transaction(tx_with_hash("a")).unwrap();
    pool.add_transaction(tx_with_hash("b")).unwrap();
    assert_eq!(pool.txpool.len(), 2);
    assert!(matches!(pool.existing_transaction(tx_with_hash("a")), TxExisting::EXISTING));
    assert!(matches!(pool.existing_transaction(tx_with_hash("c")), TxExisting::NONEXISTING));
    // Overwriting re-enters under the same key.
    let mut changed = tx_with_hash("a");
    changed.payload.amount = 99;
    pool.add_transaction(changed).unwrap();
    assert_eq!(pool.txpool.len(), 2);
    assert_eq!(pool.txpool[0].transaction.payload.amount, 99);
    assert!(matches!(pool.txpool[0].status, TxStatus::RECEIVED));
}

#[test]
fn mempool_pickup_takes_first_received_in_order() {
    let mut pool = MemPool::default();
    for name in ["a", "b", "c", "d", "e"] {
        pool.add_transaction(tx_with_hash(name)).unwrap();
    }
    let picked = pool.pickup_transaction(3).unwrap();
    assert_eq!(picked.len(), 3);
    assert_eq!(picked[0].hash, "a");
    assert_eq!(picked[1].hash, "b");
    assert_eq!(picked[2].hash, "c");
    // Pickup does not consume.
    assert_eq!(pool.txpool.len(), 5);
    let all = pool.pickup_transaction(100).unwrap();
    assert_eq!(all.len(), 5);
}

#[test]
fn mempool_remove_purges_by_hash_and_readds_as_received() {
    let mut pool = MemPool::default();
    for name in ["a", "b", "c"] {
        pool.add_transaction(tx_with_hash(name)).unwrap();
    }
    pool.remove_transactions(vec![String::from("a"), String::from("c")]).unwrap();
    assert_eq!(pool.txpool.len(), 1);
    assert!(matches!(pool.existing_transaction(tx_with_hash("a")), TxExisting::NONEXISTING));
    assert!(matches!(pool.existing_transaction(tx_with_hash("b")), TxExisting::EXISTING));
    // The same hash re-enters afterwards as a fresh RECEIVED record.
    pool.add_transaction(tx_with_hash("a")).unwrap();
    assert!(matches!(pool.existing_transaction(tx_with_hash("a")), TxExisting::EXISTING));
    assert_eq!(pool.txpool.len(), 2);
    assert!(matches!(pool.txpool[1].status, TxStatus::RECEIVED));
}

#[test]
fn metadata_defaults_match_the_stock_configuration() {
    let meta = ChainMetaData::default();
    assert_eq!(meta.get_node_count().unwrap(), 1);
    assert_eq!(meta.get_client_count().unwrap(), 5);
    assert_eq!(meta.get_tx_gen_slot().unwrap(), 200);
    assert_eq!(meta.get_block_gen_slot().unwrap(), 2000);
    assert_eq!(meta.get_block_gen_period().unwrap(), 500);
    assert_eq!(meta.get_block_tx_pickup_period().unwrap(), 400);
    assert_eq!(meta.get_block_size().unwrap(), 20);
    assert_eq!(meta.get_block_difficulty().unwrap(), 2);
}

#[test]
fn broadcast_reaches_every_inbox_exactly_once_in_order() {
    let mut channels = Channels::default();
    channels.set_pipeline(3);
    assert_eq!(channels.node_tx_inboxes.len(), 3);

    let m1 = tx_with_hash("m1");
    let m2 = tx_with_hash("m2");
    channels.broadcast_transaction(&m1);
    channels.broadcast_transaction(&m2);
    for inbox in &channels.node_tx_inboxes {
        assert_eq!(inbox.len(), 2);
        assert_eq!(inbox[0].hash, "m1");
        assert_eq!(inbox[1].hash, "m2");
    }

    let mut block = Block::default();
    block.set_hash(String::from("bh"));
    channels.broadcast_mined_block(&block);
    for inbox in &channels.node_mined_block_inboxes {
        assert_eq!(inbox.len(), 1);
        assert_eq!(inbox[0].hash, "bh");
    }

    let vote = BlockVerifyTx { block_hash: String::from("bh"), verified: true };
    channels.broadcast_block_verify_tx(&vote);
    for inbox in &channels.node_block_verify_tx_inboxes {
        assert_eq!(inbox.len(), 1);
        assert_eq!(inbox[0].block_hash, "bh");
        assert!(inbox[0].verified);
    }
}

//! A simulated blockchain network: peers receive client transactions,
//! package them into blocks, perform proof-of-work mining, and commit
//! verified blocks to a local chain under a quorum-style voting rule.
//!
//! The library holds the verified core: the data model (addresses,
//! transactions, blocks, chains, pools), the hash encodings, and the
//! per-message decision logic of the node pipeline stages. A thin driver
//! wires these to channels, clocks and tasks.

pub mod address;
pub mod block;
pub mod chain;
pub mod clock;
pub mod encoding;
pub mod hashing;
pub mod mempool;
pub mod metadata;
pub mod network;
pub mod node;
pub mod stagepool;
pub mod transaction;

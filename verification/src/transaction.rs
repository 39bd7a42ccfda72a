//! Transactions: an opaque payload with provenance and a hash, plus the
//! record form under which a mempool holds them.

use crate::clock::unix_now;
use crate::encoding::{dec_chars, usize_to_string};
use crate::hashing::{sha3_hex, sha3_hex_of};
use vstd::prelude::*;
use vstd::string::StringExecFns;

verus! {

/// The lifecycle state of a transaction inside a node's mempool.
#[allow(non_camel_case_types)]
#[derive(Clone, Copy, Debug, PartialEq, Eq, Structural)]
pub enum TxStatus {
    RECEIVED,
    PICKED,
    COMMITTED,
}

/// Whether a transaction is already present in a mempool.
#[allow(non_camel_case_types)]
#[derive(Clone, Copy, Debug, PartialEq, Eq, Structural)]
pub enum TxExisting {
    EXISTING,
    NONEXISTING,
}

/// What a transaction carries: a destination address and an amount.
#[derive(Debug)]
pub struct TxPayload {
    pub addr: String,
    pub amount: usize,
}

impl Clone for TxPayload {
    fn clone(&self) -> (r: Self)
        ensures
            r == *self,
    {
        TxPayload { addr: self.addr.clone(), amount: self.amount }
    }
}

/// The encoding of a payload inside hash preimages: `addr`, a colon, and
/// the amount in decimal.
pub open spec fn payload_encoding(p: TxPayload) -> Seq<char> {
    p.addr@ + seq![':'] + dec_chars(p.amount as nat)
}

/// A client transaction. Immutable once emitted.
#[derive(Debug)]
pub struct Transaction {
    pub timestamp: usize,
    pub nonce: usize,
    pub payload: TxPayload,
    pub signer: String,
    pub signature: String,
    pub hash: String,
}

impl Clone for Transaction {
    fn clone(&self) -> (r: Self)
        ensures
            r == *self,
    {
        Transaction {
            timestamp: self.timestamp,
            nonce: self.nonce,
            payload: self.payload.clone(),
            signer: self.signer.clone(),
            signature: self.signature.clone(),
            hash: self.hash.clone(),
        }
    }
}

/// The preimage of a transaction's own hash: timestamp, nonce, payload,
/// signer and signature, concatenated.
pub open spec fn tx_hash_preimage(tx: Transaction) -> Seq<char> {
    dec_chars(tx.timestamp as nat) + dec_chars(tx.nonce as nat) + payload_encoding(tx.payload)
        + tx.signer@ + tx.signature@
}

/// The encoding of a whole transaction inside a block's hash preimage:
/// the hash preimage fields followed by the transaction's own hash.
pub open spec fn tx_encoding(tx: Transaction) -> Seq<char> {
    tx_hash_preimage(tx) + tx.hash@
}

/// The exec companion of [`payload_encoding`].
pub fn payload_string(p: &TxPayload) -> (r: String)
    ensures
        r@ == payload_encoding(*p),
{
    let mut s = p.addr.clone();
    s.append(":");
    let amount = usize_to_string(p.amount);
    s.append(amount.as_str());
    proof {
        reveal_strlit(":");
        assert(s@ =~= payload_encoding(*p));
    }
    s
}

impl Transaction {
    /// A fresh transaction to `to_addr` over `amount`, timestamped now,
    /// with nonce zero and empty provenance fields; the hash is left unset,
    /// as the emitting client leaves it.
    pub fn new(to_addr: String, amount: usize) -> (r: Self)
        ensures
            r.nonce == 0,
            r.payload.addr == to_addr,
            r.payload.amount == amount,
            r.signer@ == Seq::<char>::empty(),
            r.signature@ == Seq::<char>::empty(),
            r.hash@ == Seq::<char>::empty(),
    {
        let timestamp = unix_now();
        Transaction {
            timestamp,
            nonce: 0,
            payload: TxPayload { addr: to_addr, amount },
            signer: String::new(),
            signature: String::new(),
            hash: String::new(),
        }
    }

    /// Record who signed the transaction and with what signature.
    pub fn sign_transaction(&mut self, addr: String, signature: String)
        ensures
            final (self).signer == addr,
            final (self).signature == signature,
            final (self).timestamp == old(self).timestamp,
            final (self).nonce == old(self).nonce,
            final (self).payload == old(self).payload,
            final (self).hash == old(self).hash,
    {
        self.signer = addr;
        self.signature = signature;
    }

    /// The transaction's hash: the digest of its preimage encoding.
    pub fn calculate_hash(tx: Transaction) -> (r: String)
        ensures
            r@ == sha3_hex_of(tx_hash_preimage(tx)),
    {
        let mut data = usize_to_string(tx.timestamp);
        let nonce = usize_to_string(tx.nonce);
        data.append(nonce.as_str());
        let payload = payload_string(&tx.payload);
        data.append(payload.as_str());
        data.append(tx.signer.as_str());
        data.append(tx.signature.as_str());
        proof {
            assert(data@ =~= tx_hash_preimage(tx));
        }
        sha3_hex(data.as_str())
    }
}

/// The exec companion of [`tx_encoding`].
pub fn tx_encoding_string(tx: &Transaction) -> (r: String)
    ensures
        r@ == tx_encoding(*tx),
{
    let mut data = usize_to_string(tx.timestamp);
    let nonce = usize_to_string(tx.nonce);
    data.append(nonce.as_str());
    let payload = payload_string(&tx.payload);
    data.append(payload.as_str());
    data.append(tx.signer.as_str());
    data.append(tx.signature.as_str());
    data.append(tx.hash.as_str());
    proof {
        assert(data@ =~= tx_encoding(*tx));
    }
    data
}

/// A mempool entry: a transaction together with its lifecycle status.
#[derive(Debug)]
pub struct TxPoolRecord {
    pub status: TxStatus,
    pub transaction: Transaction,
}

impl Clone for TxPoolRecord {
    fn clone(&self) -> (r: Self)
        ensures
            r == *self,
    {
        TxPoolRecord { status: self.status, transaction: self.transaction.clone() }
    }
}

} // verus!

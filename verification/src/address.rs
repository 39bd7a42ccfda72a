//! Actor identities: a pair of random alphanumeric strings with a derived
//! hash signature.

use crate::hashing::{sha3_hex, sha3_hex_of};
use rand::Rng;
use vstd::prelude::*;
use vstd::string::StringExecFns;

verus! {

/// An ASCII alphanumeric character.
pub open spec fn is_alphanumeric_char(c: char) -> bool {
    ('0' <= c && c <= '9') || ('a' <= c && c <= 'z') || ('A' <= c && c <= 'Z')
}

/// Relies on rand's `Alphanumeric` distribution sampled through
/// `thread_rng().sample_iter(..).take(len)`: every sampled byte is drawn
/// from `"A..Za..z0..9"`, and `take(len)` yields exactly `len` of them.
/// The characters themselves are random, so nothing more is assumed.
#[verifier::external_body]
fn rand_alphanumeric(len: usize) -> (r: String)
    ensures
        r@.len() == len as nat,
        forall|i: int| 0 <= i < r@.len() ==> is_alphanumeric_char(#[trigger] r@[i]),
{
    rand::thread_rng()
        .sample_iter(&rand::distributions::Alphanumeric)
        .take(len)
        .map(char::from)
        .collect()
}

/// An identity with a public half and a private half.
#[derive(Debug)]
pub struct Address(pub String, pub String);

impl Clone for Address {
    fn clone(&self) -> (r: Self)
        ensures
            r == *self,
    {
        Address(self.0.clone(), self.1.clone())
    }
}

impl Address {
    /// A fresh identity: 40 random alphanumeric characters for the public
    /// half and 64 for the private half.
    pub fn new() -> (r: Self)
        ensures
            r.0@.len() == 40,
            r.1@.len() == 64,
            forall|i: int| 0 <= i < r.0@.len() ==> is_alphanumeric_char(#[trigger] r.0@[i]),
            forall|i: int| 0 <= i < r.1@.len() ==> is_alphanumeric_char(#[trigger] r.1@[i]),
    {
        let pub_addr = rand_alphanumeric(40);
        let pri_addr = rand_alphanumeric(64);
        Address(pub_addr, pri_addr)
    }

    /// The public half, by which peers know this actor.
    pub fn get_public_address(&self) -> (r: &str)
        ensures
            r@ == self.0@,
    {
        self.0.as_str()
    }

    /// The derived signature: the hash of the public half followed by the
    /// private half, as lowercase hex.
    pub fn get_signature(&self) -> (r: String)
        ensures
            r@ == sha3_hex_of(self.0@ + self.1@),
    {
        let data = self.0.clone().concat(self.1.as_str());
        sha3_hex(data.as_str())
    }
}

} // verus!

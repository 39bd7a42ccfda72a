//! The hash primitive and the difficulty predicate. The concrete digest is
//! SHA3-256 rendered as lowercase hex; its value is left abstract here and
//! only its shape (64 lowercase hex characters) is stated.

use sha3::{Digest, Sha3_256};
use vstd::prelude::*;

verus! {

/// A lowercase hexadecimal digit.
pub open spec fn is_hex_digit_char(c: char) -> bool {
    ('0' <= c && c <= '9') || ('a' <= c && c <= 'f')
}

/// True when `h` begins with at least `d` `'0'` characters.
pub open spec fn hash_meets_difficulty(h: Seq<char>, d: nat) -> bool {
    h.len() >= d && forall|i: int| 0 <= i < d ==> h[i] == '0'
}

/// The lowercase-hex SHA3-256 digest of the UTF-8 bytes of `s`: a value
/// that depends on the characters of `s` alone.
pub uninterp spec fn sha3_hex_of(s: Seq<char>) -> Seq<char>;

/// Relies on `sha3::Sha3_256` (through the `digest` crate's `Digest::digest`),
/// a deterministic 32-byte digest of the input bytes, and on `generic-array`'s
/// `LowerHex` rendering, which prints each byte as two lowercase hex digits
/// drawn from `"0123456789abcdef"`, 64 characters in all.
#[verifier::external_body]
pub(crate) fn sha3_hex(s: &str) -> (r: String)
    ensures
        r@ == sha3_hex_of(s@),
        r@.len() == 64,
        forall|i: int| 0 <= i < r@.len() ==> is_hex_digit_char(#[trigger] r@[i]),
{
    let digest = Sha3_256::digest(s.as_bytes());
    format!("{:x}", digest)
}

} // verus!

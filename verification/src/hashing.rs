//! The block digest and the difficulty predicate.
//!
//! A block's digest is SHA-256, hex encoded, of the textual concatenation
//! of its fields: index, timestamp, payload, previous hash, nonce, each
//! integer in decimal. The digest itself is outside work; `sha256_hex`
//! names its value so that every contract above it can be exact.

use crate::digits::{dec_int, dec_nat};
use sha2::{Digest, Sha256};
use vstd::prelude::*;

verus! {

/// The lowercase hex encoding of the SHA-256 digest of the UTF-8 bytes of
/// a character sequence. Uninterpreted: the digest is computed by the
/// `sha2` crate and no contract restates the algorithm.
pub uninterp spec fn sha256_hex(s: Seq<char>) -> Seq<char>;

/// Relies on `sha2::Sha256` (`update`, then `finalize`) and the lowercase
/// hex rendering of its 32-byte digest: the result is a function of the
/// input characters alone, 64 hex characters long.
#[verifier::external_body]
pub fn sha256_hex_string(s: &str) -> (r: String)
    ensures
        r@ == sha256_hex(s@),
        r@.len() == 64,
{
    let mut hasher = Sha256::new();
    hasher.update(s.as_bytes());
    format!("{:x}", hasher.finalize())
}

/// The text whose digest seals a block: the five hashable fields,
/// concatenated in a fixed order, integers spelled in decimal.
pub open spec fn hash_input(
    index: u64,
    timestamp: i64,
    data: Seq<char>,
    previous_hash: Seq<char>,
    nonce: u64,
) -> Seq<char> {
    dec_nat(index as nat) + dec_int(timestamp as int) + data + previous_hash + dec_nat(
        nonce as nat,
    )
}

/// The difficulty predicate: the digest starts with `difficulty` many
/// `'0'` characters.
pub open spec fn meets_difficulty(hash: Seq<char>, difficulty: nat) -> bool {
    &&& hash.len() >= difficulty
    &&& forall|j: int| 0 <= j < difficulty ==> hash[j] == '0'
}

/// Decides the difficulty predicate on a rendered digest.
pub fn has_leading_zeros(h: &str, difficulty: usize) -> (r: bool)
    ensures
        r == meets_difficulty(h@, difficulty as nat),
{
    let len = h.unicode_len();
    if len < difficulty {
        return false;
    }
    let mut j: usize = 0;
    while j < difficulty
        invariant
            j <= difficulty,
            difficulty <= h@.len(),
            forall|k: int| 0 <= k < j ==> h@[k] == '0',
        decreases difficulty - j,
    {
        if h.get_char(j) != '0' {
            return false;
        }
        j = j + 1;
    }
    true
}

} // verus!

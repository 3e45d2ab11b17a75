//! A minimal append-only ledger with proof of work.
//!
//! A ledger is an ordered sequence of blocks, each sealed with a SHA-256
//! digest over its fields and linked to its predecessor by that digest.
//! Appending a block requires a proof-of-work search: the nonce is
//! incremented until the digest starts with a configured run of `'0'`
//! hex digits. A validator recomputes every digest and checks the links.

pub mod digits;
pub mod hashing;
pub mod ledger;

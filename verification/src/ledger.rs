//! Blocks and the append-only ledger that owns them.
//!
//! The ledger's invariant `wf` ties the chain together: the genesis block
//! sits at index 0 with the sentinel previous hash, every later block
//! carries its predecessor's digest and an index one higher, every block
//! is sealed by the digest of its own fields, and every mined block's
//! digest meets the configured difficulty.

use crate::hashing::{has_leading_zeros, hash_input, meets_difficulty, sha256_hex,
    sha256_hex_string};
use crate::digits::{i64_to_dec, u64_to_dec};
use vstd::prelude::*;

verus! {

/// The difficulty a ledger is built with by default: how many leading
/// `'0'` hex digits a mined digest must show.
pub const DEFAULT_DIFFICULTY: usize = 4;

/// One record of the ledger. A block is sealed by storing in `hash` the
/// digest of its other fields; after that the ledger never mutates it.
#[derive(Debug)]
pub struct Block {
    /// Position in the chain, starting at 0 for the genesis block.
    pub index: u64,
    /// Seconds since the Unix epoch, captured when the block was built.
    pub timestamp: i64,
    /// The caller's payload; opaque text, never parsed.
    pub data: String,
    /// The digest of the preceding block; `"0"` for the genesis block.
    pub previous_hash: String,
    /// The digest of this block's other fields, fixed when it is sealed.
    pub hash: String,
    /// The counter varied by the proof-of-work search.
    pub nonce: u64,
}

impl Block {
    /// The digest this block's fields would produce with nonce `n`.
    pub open spec fn hash_with_nonce(self, n: u64) -> Seq<char> {
        sha256_hex(hash_input(self.index, self.timestamp, self.data@, self.previous_hash@, n))
    }

    /// The digest of this block's fields as they stand.
    pub open spec fn computed_hash(self) -> Seq<char> {
        self.hash_with_nonce(self.nonce)
    }

    /// A block is sealed when its stored digest is the digest of its fields.
    pub open spec fn sealed(self) -> bool {
        self.hash@ == self.computed_hash()
    }
}

/// Relies on `chrono::Utc::now().timestamp()`: seconds since the Unix
/// epoch, read from the system clock. Nothing is assumed of the value.
#[verifier::external_body]
fn now_timestamp() -> i64 {
    chrono::Utc::now().timestamp()
}

/// The ledger: the ordered chain of blocks and the configured difficulty.
pub struct Blockchain {
    /// The committed blocks, oldest first. Public so that callers can read
    /// every field; a caller that writes into it is the tampering that
    /// `is_chain_valid` exists to detect.
    pub chain: Vec<Block>,
    /// How many leading `'0'` characters a mined digest must show.
    pub difficulty: usize,
}

impl Blockchain {
    /// The ledger's invariant; established by construction and preserved
    /// by every append.
    pub open spec fn wf(self) -> bool {
        &&& self.chain@.len() >= 1
        &&& self.chain@[0].index == 0
        &&& self.chain@[0].previous_hash@ == "0"@
        &&& forall|i: int|
            1 <= i < self.chain@.len() ==> (#[trigger] self.chain@[i]).index == self.chain@[i
                - 1].index + 1
        &&& forall|i: int|
            1 <= i < self.chain@.len() ==> (#[trigger] self.chain@[i]).previous_hash@
                == self.chain@[i - 1].hash@
        &&& forall|i: int| 0 <= i < self.chain@.len() ==> (#[trigger] self.chain@[i]).sealed()
        &&& forall|i: int|
            1 <= i < self.chain@.len() ==> meets_difficulty(
                (#[trigger] self.chain@[i]).hash@,
                self.difficulty as nat,
            )
    }

    /// What validation decides: every non-genesis block is sealed and
    /// linked to its predecessor. The genesis block's own digest is not
    /// re-checked, and the difficulty predicate is not re-checked; the
    /// stronger `wf` covers both.
    pub open spec fn spec_chain_valid(self) -> bool {
        forall|i: int|
            1 <= i < self.chain@.len() ==> ((#[trigger] self.chain@[i]).sealed()
                && self.chain@[i].previous_hash@ == self.chain@[i - 1].hash@)
    }

    /// A ledger with the default difficulty, holding its genesis block.
    pub fn new() -> (r: Blockchain)
        ensures
            r.wf(),
            r.difficulty == DEFAULT_DIFFICULTY,
            r.chain@.len() == 1,
            r.chain@[0].index == 0,
            r.chain@[0].data@ == "Genesis Block"@,
            r.chain@[0].previous_hash@ == "0"@,
            r.chain@[0].nonce == 0,
            r.chain@[0].sealed(),
    {
        Blockchain::with_difficulty(DEFAULT_DIFFICULTY)
    }

    /// A ledger with the given difficulty, holding its genesis block.
    pub fn with_difficulty(difficulty: usize) -> (r: Blockchain)
        ensures
            r.wf(),
            r.difficulty == difficulty,
            r.chain@.len() == 1,
            r.chain@[0].index == 0,
            r.chain@[0].data@ == "Genesis Block"@,
            r.chain@[0].previous_hash@ == "0"@,
            r.chain@[0].nonce == 0,
            r.chain@[0].sealed(),
    {
        let mut blockchain = Blockchain { chain: Vec::new(), difficulty };
        blockchain.create_genesis_block();
        blockchain
    }

    /// Builds and commits the genesis block: index 0, the sentinel
    /// previous hash `"0"`, nonce 0, a fixed payload, the timestamp of
    /// the moment, and the digest of those fields. The genesis block is
    /// not mined: the difficulty predicate is not applied to it.
    pub fn create_genesis_block(&mut self)
        requires
            old(self).chain@.len() == 0,
        ensures
            final(self).difficulty == old(self).difficulty,
            final(self).chain@.len() == 1,
            final(self).chain@[0].index == 0,
            final(self).chain@[0].data@ == "Genesis Block"@,
            final(self).chain@[0].previous_hash@ == "0"@,
            final(self).chain@[0].nonce == 0,
            final(self).chain@[0].sealed(),
            final(self).wf(),
    {
        let mut genesis_block = Block {
            index: 0,
            timestamp: now_timestamp(),
            data: String::from_str("Genesis Block"),
            previous_hash: String::from_str("0"),
            hash: String::new(),
            nonce: 0,
        };
        let hash = self.hash_block(&genesis_block);
        genesis_block.hash = hash;
        self.chain.push(genesis_block);
    }

    /// The digest of a block's fields: index, timestamp, payload,
    /// previous hash and nonce, concatenated as text and hashed.
    pub fn hash_block(&self, block: &Block) -> (r: String)
        ensures
            r@ == block.computed_hash(),
            r@.len() == 64,
    {
        let mut input = u64_to_dec(block.index);
        let timestamp_text = i64_to_dec(block.timestamp);
        input.append(timestamp_text.as_str());
        input.append(block.data.as_str());
        input.append(block.previous_hash.as_str());
        let nonce_text = u64_to_dec(block.nonce);
        input.append(nonce_text.as_str());
        proof {
            assert(input@ =~= hash_input(
                block.index,
                block.timestamp,
                block.data@,
                block.previous_hash@,
                block.nonce,
            ));
        }
        sha256_hex_string(input.as_str())
    }

    /// Whether the digest of the block's fields as they stand meets the
    /// ledger's difficulty. The stored `hash` field plays no part: the
    /// digest is recomputed.
    pub fn is_valid_proof(&self, block: &Block) -> (r: bool)
        ensures
            r == meets_difficulty(block.computed_hash(), self.difficulty as nat),
    {
        let hash = self.hash_block(block);
        has_leading_zeros(hash.as_str(), self.difficulty)
    }

    /// The proof-of-work search: increments the nonce until the block's
    /// digest meets the difficulty. Only the nonce changes. Returns false
    /// only if no nonce from the starting one upward satisfies the
    /// predicate, so that the counter never wraps.
    pub fn proof_of_work(&self, block: &mut Block) -> (found: bool)
        ensures
            final(block).index == old(block).index,
            final(block).timestamp == old(block).timestamp,
            final(block).data@ == old(block).data@,
            final(block).previous_hash@ == old(block).previous_hash@,
            final(block).hash@ == old(block).hash@,
            final(block).nonce >= old(block).nonce,
            forall|n: u64|
                old(block).nonce <= n < final(block).nonce ==> !meets_difficulty(
                    old(block).hash_with_nonce(n),
                    self.difficulty as nat,
                ),
            found ==> meets_difficulty(final(block).computed_hash(), self.difficulty as nat),
            !found ==> final(block).nonce == u64::MAX,
            !found ==> forall|n: u64|
                old(block).nonce <= n ==> !meets_difficulty(
                    old(block).hash_with_nonce(n),
                    self.difficulty as nat,
                ),
    {
        loop
            invariant
                block.index == old(block).index,
                block.timestamp == old(block).timestamp,
                block.data@ == old(block).data@,
                block.previous_hash@ == old(block).previous_hash@,
                block.hash@ == old(block).hash@,
                block.nonce >= old(block).nonce,
                forall|n: u64|
                    old(block).nonce <= n < block.nonce ==> !meets_difficulty(
                        old(block).hash_with_nonce(n),
                        self.difficulty as nat,
                    ),
            decreases u64::MAX - block.nonce,
        {
            if self.is_valid_proof(block) {
                return true;
            }
            proof {
                assert(block.computed_hash() == old(block).hash_with_nonce(block.nonce));
            }
            if block.nonce == u64::MAX {
                return false;
            }
            block.nonce = block.nonce + 1;
        }
    }

    /// Mines and commits a block carrying `data`, stamped with the clock's
    /// current time. The new block links to the current tail; its nonce is
    /// found by `proof_of_work` and its digest sealed afterwards. Returns
    /// whether a block was appended; on false (no nonce at all satisfies
    /// the difficulty for the candidate) the ledger is unchanged.
    pub fn mine_block(&mut self, data: String) -> (appended: bool)
        requires
            old(self).chain@.len() >= 1,
            old(self).chain@.last().index < u64::MAX,
        ensures
            final(self).difficulty == old(self).difficulty,
            !appended ==> *final(self) == *old(self),
            appended ==> final(self).chain@.len() == old(self).chain@.len() + 1,
            appended ==> final(self).chain@ == old(self).chain@.push(final(self).chain@.last()),
            appended ==> final(self).chain@.last().index == old(self).chain@.last().index + 1,
            appended ==> final(self).chain@.last().data@ == data@,
            appended ==> final(self).chain@.last().previous_hash@ == old(
                self,
            ).chain@.last().hash@,
            appended ==> final(self).chain@.last().sealed(),
            appended ==> meets_difficulty(
                final(self).chain@.last().hash@,
                old(self).difficulty as nat,
            ),
            old(self).wf() && appended ==> final(self).wf(),
    {
        let timestamp = now_timestamp();
        self.mine_block_at(data, timestamp)
    }

    /// Mines and commits a block carrying `data` with the given timestamp.
    /// Appends exactly when some nonce makes the candidate's digest meet
    /// the ledger's difficulty; otherwise the ledger is unchanged.
    pub fn mine_block_at(&mut self, data: String, timestamp: i64) -> (appended: bool)
        requires
            old(self).chain@.len() >= 1,
            old(self).chain@.last().index < u64::MAX,
        ensures
            final(self).difficulty == old(self).difficulty,
            !appended ==> *final(self) == *old(self),
            appended ==> final(self).chain@.len() == old(self).chain@.len() + 1,
            appended ==> final(self).chain@ == old(self).chain@.push(final(self).chain@.last()),
            appended ==> final(self).chain@.last().index == old(self).chain@.last().index + 1,
            appended ==> final(self).chain@.last().timestamp == timestamp,
            appended ==> final(self).chain@.last().data@ == data@,
            appended ==> final(self).chain@.last().previous_hash@ == old(
                self,
            ).chain@.last().hash@,
            appended ==> final(self).chain@.last().sealed(),
            appended ==> meets_difficulty(
                final(self).chain@.last().hash@,
                old(self).difficulty as nat,
            ),
            appended == exists|n: u64|
                meets_difficulty(
                    #[trigger] sha256_hex(
                        hash_input(
                            (old(self).chain@.last().index + 1) as u64,
                            timestamp,
                            data@,
                            old(self).chain@.last().hash@,
                            n,
                        ),
                    ),
                    old(self).difficulty as nat,
                ),
            appended ==> forall|n: u64|
                n < final(self).chain@.last().nonce ==> !meets_difficulty(
                    #[trigger] sha256_hex(
                        hash_input(
                            (old(self).chain@.last().index + 1) as u64,
                            timestamp,
                            data@,
                            old(self).chain@.last().hash@,
                            n,
                        ),
                    ),
                    old(self).difficulty as nat,
                ),
            old(self).wf() && appended ==> final(self).wf(),
    {
        let tail = self.chain.len() - 1;
        let index = self.chain[tail].index + 1;
        let previous_hash = self.chain[tail].hash.clone();
        let mut new_block = Block {
            index,
            timestamp,
            data,
            previous_hash,
            hash: String::new(),
            nonce: 0,
        };
        let ghost candidate = new_block;
        let found = self.proof_of_work(&mut new_block);
        if !found {
            proof {
                assert forall|n: u64|
                    !meets_difficulty(
                        #[trigger] sha256_hex(
                            hash_input(
                                (old(self).chain@.last().index + 1) as u64,
                                timestamp,
                                data@,
                                old(self).chain@.last().hash@,
                                n,
                            ),
                        ),
                        old(self).difficulty as nat,
                    ) by {
                    assert(!meets_difficulty(
                        candidate.hash_with_nonce(n),
                        self.difficulty as nat,
                    ));
                }
            }
            return false;
        }
        let hash = self.hash_block(&new_block);
        new_block.hash = hash;
        proof {
            assert forall|n: u64| n < new_block.nonce implies !meets_difficulty(
                #[trigger] sha256_hex(
                    hash_input(
                        (old(self).chain@.last().index + 1) as u64,
                        timestamp,
                        data@,
                        old(self).chain@.last().hash@,
                        n,
                    ),
                ),
                old(self).difficulty as nat,
            ) by {
                assert(!meets_difficulty(candidate.hash_with_nonce(n), self.difficulty as nat));
            }
            assert(meets_difficulty(
                sha256_hex(
                    hash_input(
                        (old(self).chain@.last().index + 1) as u64,
                        timestamp,
                        data@,
                        old(self).chain@.last().hash@,
                        new_block.nonce,
                    ),
                ),
                old(self).difficulty as nat,
            ));
        }
        self.chain.push(new_block);
        proof {
            let oc = old(self).chain@;
            let nc = self.chain@;
            assert(nc.last() == nc[oc.len() as int]);
            assert(nc == oc.push(nc.last()));
            if old(self).wf() {
                lemma_append_preserves_wf(*old(self), *self, nc.last());
            }
        }
        true
    }

    /// Validation: walks the chain from the block after genesis, recomputes
    /// each block's digest against its stored `hash`, and checks that each
    /// block's `previous_hash` is its predecessor's `hash`. Pure; decides
    /// exactly `spec_chain_valid`.
    pub fn is_chain_valid(&self) -> (r: bool)
        ensures
            r == self.spec_chain_valid(),
    {
        let mut i: usize = 1;
        while i < self.chain.len()
            invariant
                1 <= i,
                forall|k: int|
                    1 <= k < i ==> ((#[trigger] self.chain@[k]).sealed() && self.chain@[k
                        - 1].hash@ == self.chain@[k].previous_hash@),
            decreases self.chain@.len() - i,
        {
            let recomputed = self.hash_block(&self.chain[i]);
            if !(self.chain[i].hash == recomputed) {
                proof {
                    assert(!(self.chain@[i as int]).sealed());
                }
                return false;
            }
            if !(self.chain[i].previous_hash == self.chain[i - 1].hash) {
                return false;
            }
            i = i + 1;
        }
        true
    }
}

/// Law: committing a sealed, linked, difficulty-meeting block onto a
/// well-formed ledger leaves it well formed — every append keeps the
/// linkage, index and proof-of-work invariants.
pub proof fn lemma_append_preserves_wf(pre: Blockchain, post: Blockchain, b: Block)
    requires
        pre.wf(),
        post.difficulty == pre.difficulty,
        post.chain@ == pre.chain@.push(b),
        b.index == pre.chain@.last().index + 1,
        b.previous_hash@ == pre.chain@.last().hash@,
        b.sealed(),
        meets_difficulty(b.hash@, pre.difficulty as nat),
    ensures
        post.wf(),
{
    let oc = pre.chain@;
    let nc = post.chain@;
    assert(nc[oc.len() as int] == b);
    assert(oc.last() == oc[oc.len() - 1]);
    assert forall|i: int| 1 <= i < nc.len() implies (#[trigger] nc[i]).index == nc[i - 1].index
        + 1 by {
        if i < oc.len() {
            assert(nc[i] == oc[i] && nc[i - 1] == oc[i - 1]);
        } else {
            assert(nc[i] == b && nc[i - 1] == oc[oc.len() - 1]);
        }
    }
    assert forall|i: int| 1 <= i < nc.len() implies (#[trigger] nc[i]).previous_hash@ == nc[i
        - 1].hash@ by {
        if i < oc.len() {
            assert(nc[i] == oc[i] && nc[i - 1] == oc[i - 1]);
        } else {
            assert(nc[i] == b && nc[i - 1] == oc[oc.len() - 1]);
        }
    }
    assert forall|i: int| 0 <= i < nc.len() implies (#[trigger] nc[i]).sealed() by {
        if i < oc.len() {
            assert(nc[i] == oc[i]);
        } else {
            assert(nc[i] == b);
        }
    }
    assert forall|i: int| 1 <= i < nc.len() implies meets_difficulty(
        (#[trigger] nc[i]).hash@,
        post.difficulty as nat,
    ) by {
        if i < oc.len() {
            assert(nc[i] == oc[i]);
        } else {
            assert(nc[i] == b);
        }
    }
}

/// Law: the digest is a function of the hashable fields alone — two
/// blocks that agree on index, timestamp, payload, previous hash and
/// nonce have the same digest.
pub proof fn lemma_hash_deterministic(a: Block, b: Block)
    requires
        a.index == b.index,
        a.timestamp == b.timestamp,
        a.data@ == b.data@,
        a.previous_hash@ == b.previous_hash@,
        a.nonce == b.nonce,
    ensures
        a.computed_hash() == b.computed_hash(),
{
}

/// Law: a well-formed ledger validates — `is_chain_valid` returns true on
/// any chain produced purely through construction and appends.
pub proof fn lemma_wf_chain_valid(ledger: Blockchain)
    requires
        ledger.wf(),
    ensures
        ledger.spec_chain_valid(),
{
}

/// Law: in a well-formed ledger a block's index is its position.
pub proof fn lemma_index_is_position(ledger: Blockchain, i: int)
    requires
        ledger.wf(),
        0 <= i < ledger.chain@.len(),
    ensures
        ledger.chain@[i].index == i,
    decreases i,
{
    if i > 0 {
        lemma_index_is_position(ledger, i - 1);
    }
}

/// Law: tampering that breaks a block's seal is detected — if any
/// non-genesis block's stored digest no longer matches the digest of its
/// fields, validation reports the chain invalid.
pub proof fn lemma_unsealed_block_detected(ledger: Blockchain, i: int)
    requires
        1 <= i < ledger.chain@.len(),
        !ledger.chain@[i].sealed(),
    ensures
        !ledger.spec_chain_valid(),
{
}

/// Law: a broken link is detected — if any non-genesis block's
/// `previous_hash` differs from its predecessor's `hash`, validation
/// reports the chain invalid.
pub proof fn lemma_broken_link_detected(ledger: Blockchain, i: int)
    requires
        1 <= i < ledger.chain@.len(),
        ledger.chain@[i].previous_hash@ != ledger.chain@[i - 1].hash@,
    ensures
        !ledger.spec_chain_valid(),
{
}

} // verus!

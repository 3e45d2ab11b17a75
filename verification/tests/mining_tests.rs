use blockchain::hashing::has_leading_zeros;
use blockchain::ledger::{Block, Blockchain};

fn candidate(data: &str, previous_hash: &str) -> Block {
    Block {
        index: 1,
        timestamp: 1_700_000_000,
        data: data.to_string(),
        previous_hash: previous_hash.to_string(),
        hash: String::new(),
        nonce: 0,
    }
}

#[test]
fn search_finds_satisfying_nonce() {
    let ledger = Blockchain::with_difficulty(2);
    let mut block = candidate("searched payload", "00ff");
    assert!(ledger.proof_of_work(&mut block));
    assert!(ledger.is_valid_proof(&block));
    assert!(ledger.hash_block(&block).starts_with("00"));
}

#[test]
fn zero_difficulty_accepts_first_nonce() {
    let ledger = Blockchain::with_difficulty(0);
    let mut block = candidate("anything", "irrelevant");
    assert!(ledger.proof_of_work(&mut block));
    assert_eq!(block.nonce, 0);
    assert!(ledger.is_valid_proof(&block));
}

#[test]
fn proof_check_recomputes_the_digest() {
    let ledger = Blockchain::with_difficulty(2);
    let mut block = candidate("checked payload", "00ff");
    assert!(ledger.proof_of_work(&mut block));
    // The stored hash field plays no part in the check.
    block.hash = "no zeros here".to_string();
    assert!(ledger.is_valid_proof(&block));
    // Changing a hashed field invalidates the found nonce almost surely.
    block.data = "another payload".to_string();
    assert!(!ledger.is_valid_proof(&block) || ledger.hash_block(&block).starts_with("00"));
}

#[test]
fn leading_zero_check() {
    assert!(has_leading_zeros("000abc", 3));
    assert!(has_leading_zeros("000abc", 0));
    assert!(!has_leading_zeros("000abc", 4));
    assert!(!has_leading_zeros("a00", 1));
    assert!(!has_leading_zeros("00", 3));
    assert!(has_leading_zeros("", 0));
}

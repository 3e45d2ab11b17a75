use blockchain::ledger::{Block, Blockchain, DEFAULT_DIFFICULTY};

fn block(index: u64, timestamp: i64, data: &str, previous_hash: &str, nonce: u64) -> Block {
    Block {
        index,
        timestamp,
        data: data.to_string(),
        previous_hash: previous_hash.to_string(),
        hash: String::new(),
        nonce,
    }
}

fn leading_zeros(s: &str) -> usize {
    s.chars().take_while(|c| *c == '0').count()
}

#[test]
fn genesis_invariant() {
    let ledger = Blockchain::new();
    assert_eq!(ledger.difficulty, DEFAULT_DIFFICULTY);
    assert_eq!(ledger.chain.len(), 1);
    let genesis = &ledger.chain[0];
    assert_eq!(genesis.index, 0);
    assert_eq!(genesis.previous_hash, "0");
    assert_eq!(genesis.data, "Genesis Block");
    assert_eq!(genesis.nonce, 0);
    assert_eq!(genesis.hash, ledger.hash_block(genesis));
}

#[test]
fn linkage_after_appends() {
    let mut ledger = Blockchain::with_difficulty(2);
    assert!(ledger.mine_block("a".to_string()));
    assert!(ledger.mine_block("b".to_string()));
    assert!(ledger.mine_block("c".to_string()));
    assert_eq!(ledger.chain.len(), 4);
    for i in 1..ledger.chain.len() {
        assert_eq!(ledger.chain[i].previous_hash, ledger.chain[i - 1].hash);
        assert_eq!(ledger.chain[i].index, ledger.chain[i - 1].index + 1);
    }
}

#[test]
fn proof_of_work_property() {
    let mut ledger = Blockchain::new();
    assert!(ledger.mine_block("payload".to_string()));
    let mined = &ledger.chain[1];
    assert!(mined.hash.starts_with("0000"));
    assert_eq!(mined.hash, ledger.hash_block(mined));
}

#[test]
fn hash_determinism() {
    let ledger = Blockchain::new();
    let a = block(3, 1700000000, "same payload", "00ab", 42);
    let b = block(3, 1700000000, "same payload", "00ab", 42);
    assert_eq!(ledger.hash_block(&a), ledger.hash_block(&a));
    assert_eq!(ledger.hash_block(&a), ledger.hash_block(&b));
}

#[test]
fn hash_known_vectors() {
    let ledger = Blockchain::new();
    // The digest input concatenates index, timestamp, data, previous hash
    // and nonce as text: here "000", "15data_payloadprevhash7", "2-3xy10".
    assert_eq!(
        ledger.hash_block(&block(0, 0, "", "", 0)),
        "2ac9a6746aca543af8dff39894cfe8173afba21eb01c6fae33d52947222855ef"
    );
    assert_eq!(
        ledger.hash_block(&block(1, 5, "data_payload", "prevhash", 7)),
        "3690b0faae83afccbc9cdabb07af43e5364f771cc868ecd5101ca8b53636e58b"
    );
    assert_eq!(
        ledger.hash_block(&block(2, -3, "x", "y", 10)),
        "6721404b07d11002a0afe9f6e6e726c9870a62f281497bb4b0e5e47da2a0c3cb"
    );
}

#[test]
fn validation_soundness() {
    let mut ledger = Blockchain::with_difficulty(2);
    assert!(ledger.is_chain_valid());
    assert!(ledger.mine_block("one".to_string()));
    assert!(ledger.mine_block("two".to_string()));
    assert!(ledger.is_chain_valid());
}

#[test]
fn tampered_data_detected() {
    let mut ledger = Blockchain::with_difficulty(2);
    assert!(ledger.mine_block("original".to_string()));
    assert!(ledger.mine_block("later".to_string()));
    assert!(ledger.is_chain_valid());
    ledger.chain[1].data = "forged".to_string();
    assert!(!ledger.is_chain_valid());
}

#[test]
fn tampered_link_detected() {
    let mut ledger = Blockchain::with_difficulty(2);
    assert!(ledger.mine_block("original".to_string()));
    assert!(ledger.mine_block("later".to_string()));
    assert!(ledger.is_chain_valid());
    ledger.chain[2].previous_hash = "not the predecessor's hash".to_string();
    assert!(!ledger.is_chain_valid());
}

#[test]
fn end_to_end_scenario() {
    let mut ledger = Blockchain::new();
    for i in 1..=6 {
        assert!(ledger.mine_block(format!("Transaction {}", i)));
    }
    assert_eq!(ledger.chain.len(), 7);
    assert!(ledger.is_chain_valid());
    assert_eq!(ledger.chain[6].index, 6);
    assert_eq!(ledger.chain[6].previous_hash, ledger.chain[5].hash);
    assert_eq!(ledger.chain[6].data, "Transaction 6");
}

#[test]
fn difficulty_scaling() {
    for difficulty in 0..=3 {
        let mut ledger = Blockchain::with_difficulty(difficulty);
        assert!(ledger.mine_block("scaling".to_string()));
        let mined = &ledger.chain[1];
        assert!(leading_zeros(&mined.hash) >= difficulty);
        assert_eq!(mined.hash.len(), 64);
    }
}

#[test]
fn mining_at_fixed_timestamp_is_reproducible() {
    let mut first = Blockchain::with_difficulty(2);
    let mut second = Blockchain::with_difficulty(2);
    // Align the genesis blocks: the ledgers may be built in different
    // seconds, and each mined block chains from the genesis digest.
    second.chain[0].timestamp = first.chain[0].timestamp;
    let genesis_hash = first.hash_block(&first.chain[0]);
    second.chain[0].hash = genesis_hash.clone();
    first.chain[0].hash = genesis_hash;
    assert!(first.mine_block_at("same".to_string(), 1_700_000_000));
    assert!(second.mine_block_at("same".to_string(), 1_700_000_000));
    assert_eq!(first.chain[1].hash, second.chain[1].hash);
    assert_eq!(first.chain[1].nonce, second.chain[1].nonce);
}

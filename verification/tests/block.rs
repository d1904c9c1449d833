use mini_blockchain::chain::block::{meets_target, Block};
use mini_blockchain::crypto::transaction::Transaction;
use mini_blockchain::types::PublicKey;
use sha2::{Digest, Sha256};

fn sha256_hex(text: &str) -> String {
    hex::encode(Sha256::digest(text.as_bytes()))
}

#[test]
fn block_hash_es_consistente_al_recalcular() {
    let block = Block::new(0, vec![], &mini_blockchain::types::Hash::empty());
    assert_eq!(block.hash(), &block.compute_hash());
}

#[test]
fn block_hash_cambia_al_agregar_transaccion() {
    let mut block = Block::new(0, vec![], &mini_blockchain::types::Hash::empty());
    let hash_original = block.compute_hash();
    block.transactions.push(Transaction::new(PublicKey::coinbase(), PublicKey([1u8; 32]), 100));
    assert_ne!(hash_original, block.compute_hash());
}

#[test]
fn genesis_style_block_hash_is_sha256_of_its_header_text() {
    let block = Block::with_timestamp(0, vec![], &mini_blockchain::types::Hash::empty(), 0);
    // index "0", empty merkle root, empty prev hash, timestamp "0", nonce "0"
    assert_eq!(block.hash().as_str(), sha256_hex("000"));
}

#[test]
fn block_hash_covers_index_prev_hash_and_timestamp() {
    let prev = mini_blockchain::types::Hash::from_string("abc".to_string());
    let block = Block::with_timestamp(12, vec![], &prev, 1700000000);
    assert_eq!(block.hash().as_str(), sha256_hex("12abc17000000000"));
}

#[test]
fn mining_reaches_the_difficulty_target() {
    let mut block = Block::with_timestamp(1, vec![], &mini_blockchain::types::Hash::empty(), 42);
    block.mine(2);
    assert!(block.hash().as_str().starts_with("00"));
    assert_eq!(block.hash(), &block.compute_hash());
    assert!(meets_target(block.hash(), 2));
}

#[test]
fn mining_an_already_valid_block_changes_nothing() {
    let mut block = Block::with_timestamp(1, vec![], &mini_blockchain::types::Hash::empty(), 42);
    let before = block.hash().clone();
    block.mine(0);
    assert_eq!(block.nonce, 0);
    assert_eq!(block.hash(), &before);
}

#[test]
fn summary_line_lists_the_block() {
    let block = Block::with_timestamp(3, vec![], &mini_blockchain::types::Hash::from_string("p".to_string()), 9);
    let expected = format!("Block 3: Hash: {}, Prev Hash: p, Timestamp: 9, Transactions: 0", block.hash().as_str());
    assert_eq!(block.summary(), expected);
}

#[test]
fn corrupt_overwrites_only_the_hash() {
    let mut block = Block::with_timestamp(1, vec![], &mini_blockchain::types::Hash::empty(), 5);
    block.corrupt();
    assert_eq!(block.hash().as_str(), "corrupt_hash");
    assert_eq!(block.index(), 1);
    assert_eq!(block.timestamp(), 5);
}

#[test]
fn mining_a_stale_hash_finds_the_least_nonce_above_the_start() {
    let mut block = Block::with_timestamp(2, vec![], &mini_blockchain::types::Hash::empty(), 7);
    block.corrupt();
    let start = block.clone();
    block.mine(1);
    assert!(block.nonce > start.nonce);
    assert_eq!(block.hash(), &block.compute_hash());
    assert!(block.hash().as_str().starts_with('0'));
    for n in (start.nonce + 1)..block.nonce {
        let mut probe = start.clone();
        probe.nonce = n;
        assert!(!probe.compute_hash().as_str().starts_with('0'));
    }
}

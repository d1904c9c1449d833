use mini_blockchain::chain::merkle::{merkle_root, merklee_root, sha256_hex_of};
use mini_blockchain::config::Config;
use mini_blockchain::crypto::transaction::Transaction;
use mini_blockchain::encoding::{decode_hex, push_decimal, to_hex, HexError};
use mini_blockchain::types::{KeyParseError, PublicKey};
use sha2::{Digest, Sha256};

fn sha256_hex(text: &str) -> String {
    hex::encode(Sha256::digest(text.as_bytes()))
}

#[test]
fn hex_encoding_is_lowercase_pairs() {
    assert_eq!(to_hex(&[0xde, 0xad, 0x00, 0x0f]), "dead000f");
    assert_eq!(to_hex(&[]), "");
}

#[test]
fn decimal_has_no_leading_zeros() {
    let mut s = String::new();
    push_decimal(&mut s, 0);
    push_decimal(&mut s, 1234);
    push_decimal(&mut s, u64::MAX);
    assert_eq!(s, format!("01234{}", u64::MAX));
}

#[test]
fn hex_decoding_matches_the_hex_crate() {
    assert_eq!(decode_hex("0aFf"), Ok(vec![0x0a, 0xff]));
    assert_eq!(decode_hex("123"), Err(HexError::OddLength));
    assert_eq!(decode_hex("66ag"), Err(HexError::InvalidHexCharacter { c: 'g', index: 3 }));
    assert_eq!(decode_hex(""), Ok(vec![]));
    assert_eq!(hex::decode("0aFf").unwrap(), vec![0x0a, 0xff]);
}

#[test]
fn public_keys_round_trip_through_hex() {
    let k = PublicKey([0x5a; 32]);
    assert_eq!(PublicKey::from_hex(&k.to_hex()), Ok(k));
    assert_eq!(PublicKey::from_hex("abcd"), Err(KeyParseError::InvalidKeyLength));
    assert_eq!(PublicKey::from_hex("zz"), Err(KeyParseError::InvalidHex(HexError::InvalidHexCharacter { c: 'z', index: 0 })));
    assert_eq!(PublicKey::from_vec(vec![1u8; 31]).unwrap_err(), mini_blockchain::error::TransactionError::InvalidKeyLength);
    assert_eq!(PublicKey::from_vec(vec![1u8; 32]).unwrap(), PublicKey([1u8; 32]));
}

#[test]
fn coinbase_key_is_all_zero() {
    assert!(PublicKey::coinbase().is_coinbase());
    assert!(!PublicKey([0, 0, 0, 1, 0, 0, 0, 0, 0, 0, 0, 0, 0, 0, 0, 0, 0, 0, 0, 0, 0, 0, 0, 0, 0, 0, 0, 0, 0, 0, 0, 0]).is_coinbase());
}

#[test]
fn sha256_hex_matches_sha2() {
    assert_eq!(sha256_hex_of("abc").as_str(), sha256_hex("abc"));
    assert_eq!(
        sha256_hex_of("abc").as_str(),
        "ba7816bf8f01cfea414140de5dae2223b00361a396177a9cb410ff61f20015ad"
    );
}

#[test]
fn merkle_root_of_nothing_is_empty() {
    assert_eq!(merkle_root(&[]).as_str(), "");
    assert_eq!(merklee_root(&[]), "");
}

#[test]
fn merkle_root_pairs_and_duplicates_the_odd_leaf() {
    let txs: Vec<Transaction> = (0..3u64)
        .map(|i| Transaction::with_nonce(PublicKey([i as u8; 32]), PublicKey([9u8; 32]), 10 + i, 100 + i))
        .collect();
    let leaves: Vec<String> = txs.iter().map(|tx| sha256_hex(&tx.content())).collect();
    assert_eq!(merkle_root(&txs[..1]).as_str(), leaves[0]);
    let ab = sha256_hex(&format!("{}{}", leaves[0], leaves[1]));
    let cc = sha256_hex(&format!("{}{}", leaves[2], leaves[2]));
    let root = sha256_hex(&format!("{}{}", ab, cc));
    assert_eq!(merkle_root(&txs).as_str(), root);
}

#[test]
fn merklee_root_leaves_out_the_nonce() {
    let a = Transaction::with_nonce(PublicKey([1u8; 32]), PublicKey([2u8; 32]), 5, 1);
    let b = Transaction::with_nonce(PublicKey([1u8; 32]), PublicKey([2u8; 32]), 5, 2);
    assert_eq!(merklee_root(&[a.clone()]), merklee_root(&[b.clone()]));
    assert_ne!(merkle_root(&[a.clone()]), merkle_root(&[b]));
    let leaf = sha256_hex(&format!("{}{}5", "01".repeat(32), "02".repeat(32)));
    assert_eq!(merklee_root(&[a]), leaf);
}

#[test]
fn config_falls_back_to_the_development_password() {
    let c = Config::from_password_setting(None);
    assert_eq!(c.wallet_password, "dev_password_change_me");
    assert_eq!(c.wallet_path, "wallet.json");
    assert_eq!(c.chain_path, "blockchain.json");
    assert_eq!(c.difficulty, 2);
    assert_eq!(c.coinbase_reward, 50);
    let c = Config::from_password_setting(Some("s3cret".to_string()));
    assert_eq!(c.wallet_password, "s3cret");
}

use ed25519_dalek::{Signature, Verifier, VerifyingKey};
use mini_blockchain::crypto::transaction::Transaction;
use mini_blockchain::types::PublicKey;

#[test]
fn transaction_transacciones_identicas_tienen_nonce_distinto() {
    let tx1 = Transaction::new(PublicKey::coinbase(), PublicKey([1u8; 32]), 100);
    let tx2 = Transaction::new(PublicKey::coinbase(), PublicKey([1u8; 32]), 100);
    assert_ne!(tx1.nonce(), tx2.nonce());
}

#[test]
fn transactions_transacciones_identicas_tienen_nonce_distinto() {
    let tx1 = Transaction::new(PublicKey::coinbase(), PublicKey([1u8; 32]), 100);
    let tx2 = Transaction::new(PublicKey::coinbase(), PublicKey([1u8; 32]), 100);
    assert_ne!(tx1.nonce, tx2.nonce);
}

#[test]
fn signed_content_is_hex_keys_then_decimal_amount_and_nonce() {
    let tx = Transaction::with_nonce(PublicKey([0xab; 32]), PublicKey([0x01; 32]), 250, 7);
    let expected = format!("{}{}2507", "ab".repeat(32), "01".repeat(32));
    assert_eq!(tx.content(), expected);
    assert!(tx.signature().is_none());
}

#[test]
fn signature_verifies_with_ed25519_dalek() {
    let secret = [5u8; 32];
    let wallet = mini_blockchain::crypto::wallet::Wallet::from_secret(secret);
    let mut tx = Transaction::with_nonce(wallet.pubkey(), PublicKey([2u8; 32]), 10, 99);
    tx.sign(&secret);
    let sig: [u8; 64] = tx.signature().unwrap().try_into().unwrap();
    let vk = VerifyingKey::from_bytes(wallet.pubkey().as_bytes()).unwrap();
    assert!(vk.verify(tx.content().as_bytes(), &Signature::from_bytes(&sig)).is_ok());
}

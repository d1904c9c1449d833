use aes_gcm::aead::{Aead, KeyInit};
use aes_gcm::{Aes256Gcm, Key, Nonce};
use sha2::{Digest, Sha256};
use ed25519_dalek::SigningKey;
use mini_blockchain::crypto::wallet::Wallet;
use mini_blockchain::error::WalletError;
use mini_blockchain::types::PublicKey;

#[test]
fn wallet_cifrado_round_trip() {
    let wallet = Wallet::new([42u8; 32], PublicKey([7u8; 32]));
    let sealed = wallet.seal("mi_password").unwrap();
    let loaded = Wallet::open(&sealed, "mi_password").unwrap();
    assert_eq!(loaded.secret, wallet.secret);
    assert_eq!(loaded.pubkey, wallet.pubkey);
}

#[test]
fn wallet_password_incorrecta_falla() {
    let wallet = Wallet::new([1u8; 32], PublicKey([2u8; 32]));
    let sealed = wallet.seal("correcta").unwrap();
    assert!(Wallet::open(&sealed, "incorrecta").is_err());
}

#[test]
fn wrong_password_is_reported_as_such() {
    let wallet = Wallet::new([1u8; 32], PublicKey([2u8; 32]));
    let sealed = wallet.seal_with_nonce("correcta", [3u8; 12]).unwrap();
    assert!(matches!(Wallet::open(&sealed, "incorrecta"), Err(WalletError::WrongPassword)));
    assert_eq!(sealed.nonce, [3u8; 12]);
    assert_eq!(sealed.ciphertext.len(), 32 + 16);
    assert_ne!(&sealed.ciphertext[..32], &wallet.secret[..]);
}

#[test]
fn sealing_is_aes_256_gcm_under_the_sha256_of_the_password() {
    let wallet = Wallet::new([9u8; 32], PublicKey([8u8; 32]));
    let sealed = wallet.seal_with_nonce("pw", [4u8; 12]).unwrap();
    let key: [u8; 32] = Sha256::digest(b"pw").into();
    let cipher = Aes256Gcm::new(Key::<Aes256Gcm>::from_slice(&key));
    let plain = cipher.decrypt(Nonce::from_slice(&[4u8; 12]), sealed.ciphertext.as_ref()).unwrap();
    assert_eq!(plain, vec![9u8; 32]);
}

#[test]
fn a_ciphertext_of_the_wrong_length_is_rejected() {
    let key: [u8; 32] = Sha256::digest(b"pw").into();
    let cipher = Aes256Gcm::new(Key::<Aes256Gcm>::from_slice(&key));
    let ciphertext = cipher.encrypt(Nonce::from_slice(&[1u8; 12]), &[7u8; 31][..]).unwrap();
    let sealed = mini_blockchain::crypto::wallet::EncryptedWallet { nonce: [1u8; 12], ciphertext, pubkey: PublicKey([0u8; 32]) };
    assert!(matches!(Wallet::open(&sealed, "pw"), Err(WalletError::DecryptedKeyLength)));
}

#[test]
fn generated_wallets_hold_the_matching_public_key() {
    let w = Wallet::generate();
    let expected = SigningKey::from_bytes(w.secret()).verifying_key().to_bytes();
    assert_eq!(w.pubkey().as_bytes(), &expected);
    let fixed = Wallet::from_secret([1u8; 32]);
    assert_eq!(fixed.pubkey().0, SigningKey::from_bytes(&[1u8; 32]).verifying_key().to_bytes());
}

//! Wallet: an Ed25519 key pair, sealed at rest with AES-256-GCM under a key
//! derived from a password by SHA-256.

use vstd::prelude::*;
use vstd::utf8::encode_utf8;
use crate::types::{PublicKey, key_of_bytes, lemma_key_bytes_ext};
use crate::error::WalletError;
use crate::crypto::primitives::{
    aes256gcm_open, aes256gcm_seal, aes_open, aes_seal, ed25519_key_decodes, ed25519_public_key,
    public_key_of, random_nonce, random_secret, sha256, sha256_digest,
};

verus! {

/// An Ed25519 key pair used for signing transactions and blocks.
pub struct Wallet {
    /// Raw 32-byte Ed25519 secret (signing) key.
    pub secret: [u8; 32],
    /// Corresponding Ed25519 public (verifying) key.
    pub pubkey: PublicKey,
}

/// The at-rest form of a wallet: the secret sealed with AES-256-GCM, the
/// nonce it was sealed with, and the public key in the clear.
pub struct EncryptedWallet {
    pub nonce: [u8; 12],
    pub ciphertext: Vec<u8>,
    pub pubkey: PublicKey,
}

/// The AES key a password gives: SHA-256 of its UTF-8 bytes.
pub open spec fn wallet_key(password: Seq<char>) -> [u8; 32] {
    sha256(encode_utf8(password))
}

/// What opening a sealed wallet with a password gives.
pub open spec fn open_outcome(encrypted: EncryptedWallet, password: Seq<char>) -> Result<
    Wallet,
    WalletError,
> {
    match aes256gcm_open(wallet_key(password)@, encrypted.nonce@, encrypted.ciphertext@) {
        None => Err(WalletError::WrongPassword),
        Some(plain) => if plain.len() == 32 {
            Ok(Wallet { secret: key_of_bytes(plain), pubkey: encrypted.pubkey })
        } else {
            Err(WalletError::DecryptedKeyLength)
        },
    }
}

/// Copies 32 bytes into an array.
fn key_array(v: &[u8]) -> (r: [u8; 32])
    requires
        v@.len() == 32,
    ensures
        r@ == v@,
{
    let mut arr = [0u8; 32];
    for i in 0..32
        invariant
            v@.len() == 32,
            arr@.len() == 32,
            forall|j: int| 0 <= j < i ==> arr@[j] == v@[j],
    {
        arr[i] = v[i];
    }
    assert(arr@ =~= v@);
    arr
}

impl Wallet {
    /// A wallet from a raw secret key and its public key.
    pub fn new(secret: [u8; 32], pubkey: PublicKey) -> (r: Wallet)
        ensures
            r.secret == secret,
            r.pubkey == pubkey,
    {
        Wallet { secret, pubkey }
    }

    /// The wallet of a secret key, with the public key that belongs to it.
    pub fn from_secret(secret: [u8; 32]) -> (r: Wallet)
        ensures
            r.secret == secret,
            r.pubkey == PublicKey(ed25519_public_key(secret@)),
            ed25519_key_decodes(r.pubkey@),
    {
        let pubkey = PublicKey::from_bytes(public_key_of(&secret));
        Wallet { secret, pubkey }
    }

    /// A fresh wallet from a random secret key.
    pub fn generate() -> (r: Wallet)
        ensures
            r.pubkey == PublicKey(ed25519_public_key(r.secret@)),
            ed25519_key_decodes(r.pubkey@),
    {
        Self::from_secret(random_secret())
    }

    /// The raw secret key.
    pub fn secret(&self) -> (r: &[u8; 32])
        ensures
            *r == self.secret,
    {
        &self.secret
    }

    /// The public key.
    pub fn pubkey(&self) -> (r: PublicKey)
        ensures
            r == self.pubkey,
    {
        self.pubkey
    }

    /// Derives a 32-byte AES key from `password` using SHA-256.
    fn derive_key(password: &str) -> (r: [u8; 32])
        ensures
            r == wallet_key(password@),
    {
        sha256_digest(password.as_bytes())
    }

    /// Seals the secret key under `password` with the given nonce.
    pub fn seal_with_nonce(&self, password: &str, nonce: [u8; 12]) -> (r: Result<
        EncryptedWallet,
        WalletError,
    >)
        ensures
            r matches Ok(e) && e.nonce == nonce && e.pubkey == self.pubkey && e.ciphertext@
                == aes256gcm_seal(wallet_key(password@)@, nonce@, self.secret@)
                && aes256gcm_open(wallet_key(password@)@, nonce@, e.ciphertext@) == Some(
                self.secret@,
            ),
    {
        let key = Self::derive_key(password);
        match aes_seal(&key, &nonce, self.secret.as_slice()) {
            Some(ciphertext) => Ok(EncryptedWallet { nonce, ciphertext, pubkey: self.pubkey }),
            None => Err(WalletError::EncryptionFailed("aead::Error".to_owned())),
        }
    }

    /// Seals the secret key under `password` with a fresh random nonce.
    pub fn seal(&self, password: &str) -> (r: Result<EncryptedWallet, WalletError>)
        ensures
            r matches Ok(e) && e.pubkey == self.pubkey && e.ciphertext@ == aes256gcm_seal(
                wallet_key(password@)@,
                e.nonce@,
                self.secret@,
            ) && aes256gcm_open(wallet_key(password@)@, e.nonce@, e.ciphertext@) == Some(
                self.secret@,
            ),
    {
        self.seal_with_nonce(password, random_nonce())
    }

    /// Opens a sealed wallet with `password`: `WrongPassword` when the
    /// ciphertext does not authenticate under that password, `DecryptedKeyLength`
    /// when it does not hold 32 bytes.
    pub fn open(encrypted: &EncryptedWallet, password: &str) -> (r: Result<Wallet, WalletError>)
        ensures
            r == open_outcome(*encrypted, password@),
    {
        let key = Self::derive_key(password);
        match aes_open(&key, &encrypted.nonce, encrypted.ciphertext.as_slice()) {
            None => Err(WalletError::WrongPassword),
            Some(plain) => {
                if plain.len() != 32 {
                    return Err(WalletError::DecryptedKeyLength);
                }
                let secret = key_array(plain.as_slice());
                proof {
                    let k = key_of_bytes(plain@);
                    assert(secret@ == plain@);
                    lemma_key_bytes_ext(k, secret);
                }
                Ok(Wallet { secret, pubkey: encrypted.pubkey })
            },
        }
    }
}

/// A wallet sealed under a password opens under the same password to the
/// same wallet.
pub proof fn sealed_wallet_opens_with_its_password(
    wallet: Wallet,
    encrypted: EncryptedWallet,
    password: Seq<char>,
)
    requires
        encrypted.pubkey == wallet.pubkey,
        aes256gcm_open(wallet_key(password)@, encrypted.nonce@, encrypted.ciphertext@) == Some(
            wallet.secret@,
        ),
    ensures
        open_outcome(encrypted, password) == Ok::<Wallet, WalletError>(wallet),
{
    let k = key_of_bytes(wallet.secret@);
    lemma_key_bytes_ext(k, wallet.secret);
}

} // verus!

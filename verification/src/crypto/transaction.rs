//! Transaction primitives: a transfer between two Ed25519 public keys, with a
//! random anti-replay nonce and an optional signature by the sender.

use vstd::prelude::*;
use crate::types::{PublicKey, is_zero_key};
use crate::error::TransactionError;
use vstd::utf8::encode_utf8;
use crate::encoding::{decimal, hex_lower, push_decimal, push_hex};
use crate::crypto::primitives::{
    ed25519_accepts, ed25519_key_decodes, ed25519_public_key, ed25519_signature, random_u64,
    sign_message,
};

verus! {

/// A transfer of `amount` units from `sender` to `receiver`.
///
/// The `nonce` is randomised at construction to prevent replay attacks.
/// An all-zero `sender` marks a coinbase transaction, which needs no signature.
#[derive(Debug, Clone)]
pub struct Transaction {
    pub sender: PublicKey,
    pub receiver: PublicKey,
    pub amount: u64,
    pub nonce: u64,
    pub signature: Option<Vec<u8>>,
}

/// The text a transaction's signature covers, and that its Merkle leaf hashes:
/// `hex(sender) || hex(receiver) || amount || nonce`.
pub open spec fn tx_content(tx: Transaction) -> Seq<char> {
    hex_lower(tx.sender@) + hex_lower(tx.receiver@) + decimal(tx.amount as nat) + decimal(
        tx.nonce as nat,
    )
}

/// The view of an optional byte vector.
pub open spec fn opt_bytes(o: Option<Vec<u8>>) -> Option<Seq<u8>> {
    match o {
        Some(v) => Some(v@),
        None => None,
    }
}

/// Outcome of checking a transaction's signature against its sender.
pub open spec fn tx_signature_check(tx: Transaction) -> Result<(), TransactionError> {
    match opt_bytes(tx.signature) {
        None => Err(TransactionError::InvalidSignature),
        Some(sig) => if sig.len() != 64 {
            Err(TransactionError::InvalidSignatureLength)
        } else if !ed25519_key_decodes(tx.sender@) {
            Err(TransactionError::InvalidPublicKey)
        } else if !ed25519_accepts(tx.sender@, encode_utf8(tx_content(tx)), sig) {
            Err(TransactionError::InvalidSignature)
        } else {
            Ok(())
        },
    }
}

/// A transaction is authorized when it is a coinbase or carries a valid sender signature.
pub open spec fn tx_authorized(tx: Transaction) -> bool {
    is_zero_key(tx.sender@) || tx_signature_check(tx) is Ok
}

/// Writes `tx_content` into a fresh string.
fn content_text(sender: &PublicKey, receiver: &PublicKey, amount: u64, nonce: u64) -> (r:
    String)
    ensures
        r@ == hex_lower(sender@) + hex_lower(receiver@) + decimal(amount as nat) + decimal(
            nonce as nat,
        ),
{
    let mut s = String::new();
    push_hex(&mut s, sender.0.as_slice());
    push_hex(&mut s, receiver.0.as_slice());
    push_decimal(&mut s, amount);
    push_decimal(&mut s, nonce);
    s
}

impl Transaction {
    /// An unsigned transaction with the given nonce.
    pub fn with_nonce(sender: PublicKey, receiver: PublicKey, amount: u64, nonce: u64) -> (r:
        Transaction)
        ensures
            r.sender == sender,
            r.receiver == receiver,
            r.amount == amount,
            r.nonce == nonce,
            r.signature is None,
    {
        Transaction { sender, receiver, amount, nonce, signature: None }
    }

    /// An unsigned transaction with a random nonce.
    ///
    /// Pass `PublicKey::coinbase()` as `sender` to create a coinbase transaction.
    pub fn new(sender: PublicKey, receiver: PublicKey, amount: u64) -> (r: Transaction)
        ensures
            r.sender == sender,
            r.receiver == receiver,
            r.amount == amount,
            r.signature is None,
    {
        let nonce = random_u64();
        Transaction::with_nonce(sender, receiver, amount, nonce)
    }

    /// The text this transaction's signature covers.
    pub fn content(&self) -> (r: String)
        ensures
            r@ == tx_content(*self),
    {
        content_text(&self.sender, &self.receiver, self.amount, self.nonce)
    }

    /// Signs the transaction with the Ed25519 secret key `secret`.
    ///
    /// The signed message is `hex(sender) || hex(receiver) || amount || nonce`.
    pub fn sign(&mut self, secret: &[u8; 32])
        ensures
            final(self).sender == old(self).sender,
            final(self).receiver == old(self).receiver,
            final(self).amount == old(self).amount,
            final(self).nonce == old(self).nonce,
            opt_bytes(final(self).signature) == Some(
                ed25519_signature(secret@, encode_utf8(tx_content(*old(self))))@,
            ),
            old(self).sender@ == ed25519_public_key(secret@)@ && ed25519_key_decodes(
                old(self).sender@,
            ) ==> tx_signature_check(*final(self)) is Ok,
    {
        let content = self.content();
        let sig = sign_message(secret, content.as_str().as_bytes());
        let mut bytes: Vec<u8> = Vec::new();
        bytes.extend_from_slice(sig.as_slice());
        self.signature = Some(bytes);
    }

    pub fn sender(&self) -> (r: PublicKey)
        ensures
            r == self.sender,
    {
        self.sender
    }

    pub fn receiver(&self) -> (r: PublicKey)
        ensures
            r == self.receiver,
    {
        self.receiver
    }

    pub fn amount(&self) -> (r: u64)
        ensures
            r == self.amount,
    {
        self.amount
    }

    pub fn nonce(&self) -> (r: u64)
        ensures
            r == self.nonce,
    {
        self.nonce
    }

    pub fn signature(&self) -> (r: Option<&[u8]>)
        ensures
            match r {
                Some(s) => opt_bytes(self.signature) == Some(s@),
                None => self.signature is None,
            },
    {
        match &self.signature {
            Some(v) => Some(v.as_slice()),
            None => None,
        }
    }
}

} // verus!

//! Error types of the library, one enum per concern.
//!
//! Errors that wrap an outside error (I/O, JSON) hold its message text.

use vstd::prelude::*;
use crate::encoding::{decimal, push_decimal};

verus! {

/// Errors of wallet sealing, opening and storage.
#[derive(Debug, Clone)]
pub enum WalletError {
    EncryptionFailed(String),
    WrongPassword,
    DecryptedKeyLength,
    InvalidMnemonic(String),
    Io(String),
    Serialization(String),
}

/// Errors in transaction and block signatures and keys.
#[derive(Debug, Clone, Copy, PartialEq, Eq, Structural)]
pub enum TransactionError {
    InvalidSignature,
    InvalidPublicKey,
    InvalidKeyLength,
    InvalidSignatureLength,
}

/// Chain-level errors.
#[derive(Debug, Clone)]
pub enum ChainError {
    InsufficientBalance { available: u64, required: u64 },
    Transaction(TransactionError),
    Io(String),
    Serialization(String),
}

/// User-facing errors of the command-line front end.
#[derive(Debug, Clone)]
pub enum CliError {
    InvalidHex(String),
    InvalidKeyLength,
    WalletAlreadyExists(String),
    Chain(ChainError),
    Wallet(WalletError),
}

/// Errors of the peer-to-peer node.
#[derive(Debug, Clone)]
pub enum NodeError {
    Transport(String),
    Chain(ChainError),
}


/// The message of a transaction error.
pub open spec fn transaction_error_text(e: TransactionError) -> Seq<char> {
    match e {
        TransactionError::InvalidSignature => "invalid signature"@,
        TransactionError::InvalidPublicKey => "invalid public key"@,
        TransactionError::InvalidKeyLength => "invalid key length (expected 32 bytes)"@,
        TransactionError::InvalidSignatureLength => "invalid signature length (expected 64 bytes)"@,
    }
}

/// The message of a wallet error.
pub open spec fn wallet_error_text(e: WalletError) -> Seq<char> {
    match e {
        WalletError::EncryptionFailed(m) => "encryption failed: "@ + m@,
        WalletError::WrongPassword => "wrong password or corrupted wallet file"@,
        WalletError::DecryptedKeyLength => "unexpected key length in decrypted payload"@,
        WalletError::InvalidMnemonic(m) => "invalid mnemonic: "@ + m@,
        WalletError::Io(m) => "io error: "@ + m@,
        WalletError::Serialization(m) => "serialization error: "@ + m@,
    }
}

/// The message of a chain error; a transaction error shows through unchanged.
pub open spec fn chain_error_text(e: ChainError) -> Seq<char> {
    match e {
        ChainError::InsufficientBalance { available, required } => "insufficient balance: available "@
            + decimal(available as nat) + ", required "@ + decimal(required as nat),
        ChainError::Transaction(t) => transaction_error_text(t),
        ChainError::Io(m) => "io error: "@ + m@,
        ChainError::Serialization(m) => "serialization error: "@ + m@,
    }
}

/// The message of a command-line error; chain and wallet errors show through unchanged.
pub open spec fn cli_error_text(e: CliError) -> Seq<char> {
    match e {
        CliError::InvalidHex(m) => "invalid hex: "@ + m@,
        CliError::InvalidKeyLength => "key must be 32 bytes"@,
        CliError::WalletAlreadyExists(p) => "wallet already exists at "@ + p@
            + "; remove it first to generate a new one"@,
        CliError::Chain(c) => chain_error_text(c),
        CliError::Wallet(w) => wallet_error_text(w),
    }
}

/// The message of a node error; chain errors show through unchanged.
pub open spec fn node_error_text(e: NodeError) -> Seq<char> {
    match e {
        NodeError::Transport(m) => "transport error: "@ + m@,
        NodeError::Chain(c) => chain_error_text(c),
    }
}

/// A literal followed by a message.
fn prefixed(prefix: &str, rest: &String) -> (r: String)
    ensures
        r@ == prefix@ + rest@,
{
    let mut s = prefix.to_owned();
    s.append(rest.as_str());
    s
}

impl TransactionError {
    /// The error's message, as `Display` shows it.
    pub fn message(&self) -> (r: String)
        ensures
            r@ == transaction_error_text(*self),
    {
        match self {
            TransactionError::InvalidSignature => "invalid signature".to_owned(),
            TransactionError::InvalidPublicKey => "invalid public key".to_owned(),
            TransactionError::InvalidKeyLength => "invalid key length (expected 32 bytes)".to_owned(),
            TransactionError::InvalidSignatureLength => "invalid signature length (expected 64 bytes)".to_owned(),
        }
    }
}

impl WalletError {
    /// The error's message, as `Display` shows it.
    pub fn message(&self) -> (r: String)
        ensures
            r@ == wallet_error_text(*self),
    {
        match self {
            WalletError::EncryptionFailed(m) => prefixed("encryption failed: ", m),
            WalletError::WrongPassword => "wrong password or corrupted wallet file".to_owned(),
            WalletError::DecryptedKeyLength => "unexpected key length in decrypted payload".to_owned(),
            WalletError::InvalidMnemonic(m) => prefixed("invalid mnemonic: ", m),
            WalletError::Io(m) => prefixed("io error: ", m),
            WalletError::Serialization(m) => prefixed("serialization error: ", m),
        }
    }
}

impl ChainError {
    /// The error's message, as `Display` shows it.
    pub fn message(&self) -> (r: String)
        ensures
            r@ == chain_error_text(*self),
    {
        match self {
            ChainError::InsufficientBalance { available, required } => {
                let mut s = "insufficient balance: available ".to_owned();
                push_decimal(&mut s, *available);
                s.append(", required ");
                push_decimal(&mut s, *required);
                s
            },
            ChainError::Transaction(t) => t.message(),
            ChainError::Io(m) => prefixed("io error: ", m),
            ChainError::Serialization(m) => prefixed("serialization error: ", m),
        }
    }
}

impl CliError {
    /// The error's message, as `Display` shows it.
    pub fn message(&self) -> (r: String)
        ensures
            r@ == cli_error_text(*self),
    {
        match self {
            CliError::InvalidHex(m) => prefixed("invalid hex: ", m),
            CliError::InvalidKeyLength => "key must be 32 bytes".to_owned(),
            CliError::WalletAlreadyExists(p) => {
                let mut s = prefixed("wallet already exists at ", p);
                s.append("; remove it first to generate a new one");
                s
            },
            CliError::Chain(c) => c.message(),
            CliError::Wallet(w) => w.message(),
        }
    }
}

impl NodeError {
    /// The error's message, as `Display` shows it.
    pub fn message(&self) -> (r: String)
        ensures
            r@ == node_error_text(*self),
    {
        match self {
            NodeError::Transport(m) => prefixed("transport error: ", m),
            NodeError::Chain(c) => c.message(),
        }
    }
}

} // verus!

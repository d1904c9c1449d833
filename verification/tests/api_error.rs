use std::io;
use mini_blockchain::api::error::ApiError;
use mini_blockchain::error::{ChainError, TransactionError};
use axum::http::StatusCode;

#[test]
fn bad_request_returns_400() {
    let err = ApiError::BadRequest("oops".to_string());
    assert_eq!(err.status_code(), StatusCode::BAD_REQUEST.as_u16());
}

#[test]
fn not_found_returns_404() {
    let err = ApiError::NotFound("gone".to_string());
    assert_eq!(err.status_code(), StatusCode::NOT_FOUND.as_u16());
}

#[test]
fn internal_error_returns_500() {
    let err = ApiError::InternalError("boom".to_string());
    assert_eq!(err.status_code(), StatusCode::INTERNAL_SERVER_ERROR.as_u16());
}

#[test]
fn from_transaction_error_is_bad_request() {
    let err: ApiError = TransactionError::InvalidSignature.into();
    assert!(matches!(err, ApiError::BadRequest(_)));
}

#[test]
fn from_transaction_error_message_preserved() {
    let err: ApiError = TransactionError::InvalidSignatureLength.into();
    let ApiError::BadRequest(msg) = err else { panic!("wrong variant") };
    assert_eq!(msg, "invalid signature length (expected 64 bytes)");
}

#[test]
fn from_chain_error_insufficient_balance_is_bad_request() {
    let err: ApiError = ChainError::InsufficientBalance { available: 10, required: 100 }.into();
    assert!(matches!(err, ApiError::BadRequest(_)));
}

#[test]
fn from_chain_error_transaction_is_bad_request() {
    let err: ApiError = ChainError::Transaction(TransactionError::InvalidPublicKey).into();
    assert!(matches!(err, ApiError::BadRequest(_)));
}

#[test]
fn from_chain_error_io_is_internal() {
    let io_err = io::Error::new(io::ErrorKind::Other, "disk");
    let err: ApiError = ChainError::Io(io_err.to_string()).into();
    assert!(matches!(err, ApiError::InternalError(_)));
}

#[test]
fn from_chain_error_serialization_is_internal() {
    let json_err: serde_json::Error = serde_json::from_str::<i32>("bad").unwrap_err();
    let err: ApiError = ChainError::Serialization(json_err.to_string()).into();
    assert!(matches!(err, ApiError::InternalError(_)));
}

#[test]
fn insufficient_balance_message_names_both_amounts() {
    let err: ApiError = ChainError::InsufficientBalance { available: 10, required: 100 }.into();
    assert_eq!(err.message(), "insufficient balance: available 10, required 100");
    assert_eq!(err.status_code(), 400);
}

#[test]
fn io_error_message_is_prefixed_and_internal() {
    let err = ApiError::from_chain_error(ChainError::Io("disk".to_string()));
    assert_eq!(err.message(), "io error: disk");
    assert_eq!(err.status_code(), 500);
}

#[test]
fn error_messages_match_their_display_text() {
    assert_eq!(TransactionError::InvalidPublicKey.message(), "invalid public key");
    assert_eq!(
        mini_blockchain::error::WalletError::WrongPassword.message(),
        "wrong password or corrupted wallet file"
    );
    assert_eq!(
        mini_blockchain::error::CliError::WalletAlreadyExists("w.json".to_string()).message(),
        "wallet already exists at w.json; remove it first to generate a new one"
    );
    assert_eq!(
        mini_blockchain::error::NodeError::Chain(ChainError::Transaction(TransactionError::InvalidKeyLength)).message(),
        "invalid key length (expected 32 bytes)"
    );
}

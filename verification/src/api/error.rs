//! Errors of the HTTP API and their status codes.

use vstd::prelude::*;
use crate::error::{ChainError, TransactionError, chain_error_text, transaction_error_text};

verus! {

/// An error answered by the HTTP API.
#[derive(Debug)]
pub enum ApiError {
    BadRequest(String),
    NotFound(String),
    InternalError(String),
}

/// The HTTP status code of an API error.
pub open spec fn status_of(e: ApiError) -> u16 {
    match e {
        ApiError::BadRequest(_) => 400,
        ApiError::NotFound(_) => 404,
        ApiError::InternalError(_) => 500,
    }
}

/// The message text an API error carries.
pub open spec fn api_message(e: ApiError) -> Seq<char> {
    match e {
        ApiError::BadRequest(m) => m@,
        ApiError::NotFound(m) => m@,
        ApiError::InternalError(m) => m@,
    }
}

impl ApiError {
    /// A transaction error is the client's fault: `BadRequest` with its message.
    pub fn from_transaction_error(e: TransactionError) -> (r: ApiError)
        ensures
            r is BadRequest,
            api_message(r) == transaction_error_text(e),
    {
        ApiError::BadRequest(e.message())
    }

    /// Balance and signature errors are the client's fault (`BadRequest`);
    /// storage and serialization errors are the server's (`InternalError`).
    /// The message is the chain error's.
    pub fn from_chain_error(e: ChainError) -> (r: ApiError)
        ensures
            (e is InsufficientBalance || e is Transaction) ==> r is BadRequest,
            (e is Io || e is Serialization) ==> r is InternalError,
            api_message(r) == chain_error_text(e),
    {
        let msg = e.message();
        match e {
            ChainError::InsufficientBalance { .. } | ChainError::Transaction(_) => ApiError::BadRequest(
                msg,
            ),
            ChainError::Io(_) | ChainError::Serialization(_) => ApiError::InternalError(msg),
        }
    }

    /// The HTTP status code this error is answered with.
    pub fn status_code(&self) -> (r: u16)
        ensures
            r == status_of(*self),
    {
        match self {
            ApiError::BadRequest(_) => 400,
            ApiError::NotFound(_) => 404,
            ApiError::InternalError(_) => 500,
        }
    }

    /// The message text, answered as the response body.
    pub fn message(&self) -> (r: &String)
        ensures
            r@ == api_message(*self),
    {
        match self {
            ApiError::BadRequest(m) => m,
            ApiError::NotFound(m) => m,
            ApiError::InternalError(m) => m,
        }
    }
}

impl From<TransactionError> for ApiError {
    /// Same mapping as [`ApiError::from_transaction_error`].
    fn from(e: TransactionError) -> (r: ApiError)
        ensures
            r is BadRequest,
            api_message(r) == transaction_error_text(e),
    {
        ApiError::from_transaction_error(e)
    }
}

/// The spec-level image of the conversion. `obeys_from_spec` stays `false`:
/// two `String`s with equal views are not provably the same value, so the
/// generic `ret == from_spec(v)` could not be shown; the exact mapping is
/// stated in the `ensures` of `from` itself.
impl vstd::std_specs::convert::FromSpecImpl<TransactionError> for ApiError {
    open spec fn obeys_from_spec() -> bool {
        false
    }

    open spec fn from_spec(v: TransactionError) -> ApiError {
        ApiError::BadRequest(choose|m: String| m@ == transaction_error_text(v))
    }
}

impl From<ChainError> for ApiError {
    /// Same mapping as [`ApiError::from_chain_error`].
    fn from(e: ChainError) -> (r: ApiError)
        ensures
            (e is InsufficientBalance || e is Transaction) ==> r is BadRequest,
            (e is Io || e is Serialization) ==> r is InternalError,
            api_message(r) == chain_error_text(e),
    {
        ApiError::from_chain_error(e)
    }
}

/// The spec-level image of the conversion; see the note on the impl for
/// `TransactionError` about `obeys_from_spec`.
impl vstd::std_specs::convert::FromSpecImpl<ChainError> for ApiError {
    open spec fn obeys_from_spec() -> bool {
        false
    }

    open spec fn from_spec(v: ChainError) -> ApiError {
        let m = choose|m: String| m@ == chain_error_text(v);
        match v {
            ChainError::InsufficientBalance { .. } | ChainError::Transaction(_) => ApiError::BadRequest(m),
            ChainError::Io(_) | ChainError::Serialization(_) => ApiError::InternalError(m),
        }
    }
}

} // verus!

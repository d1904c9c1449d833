//! What the HTTP front end decides: how library errors become responses.

pub mod error;

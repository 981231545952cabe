//! Stateless bearer-token authentication core.
//!
//! Credentials are derived from passwords with a salted bcrypt digest and
//! stored in a versioned envelope.  External tokens are the base64 encoding
//! of the AES-256-CBC encryption of `username$credential` under a process-wide
//! shared secret, so a token can be resolved back to a user with nothing but
//! the secret and the user directory: no session state exists anywhere.

pub mod auth;
pub mod codec;
pub mod config;
pub mod error_handler;
pub mod hashing;
pub mod laws;
pub mod text;
pub mod users;

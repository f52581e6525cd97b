//! A password-manager service: users register an e-mail, a 32-byte
//! authentication key and an encrypted vault, then read, replace and re-key
//! the vault with that key.
//!
//! - `guards`: the checks on the request headers (keys, e-mail, vault).
//! - `handler`: how each endpoint is served, as a step function between the
//!   database's answers and the next action.
//! - `laws`: what serving requests does to a model of the `users` table.
//! - `hex_codec`: hex text, with the `hex` crate doing the work.
//! - `models`, `error`: the rows of `users` and the errors of the service.

pub mod error;
pub mod guards;
pub mod handler;
pub mod hex_codec;
pub mod laws;
pub mod models;

pub use error::ApiError;

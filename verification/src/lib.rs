//! Deterministic per-domain password derivation with an authenticated
//! synchronization server.
//!
//! The crate is organised around three subsystems: the derivation engine
//! (`password`), the server-side credential store, session manager and user
//! database (`auth`), and the client's change-tracking configuration store
//! (`config`) together with the synchronization protocol (`sync`).

pub mod auth;
pub mod config;
pub mod error;
pub mod kv;
pub mod password;
pub mod prompt;
pub mod request;
pub mod storage;
pub mod sync;
pub mod text;

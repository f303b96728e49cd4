//! The credential and session core of an authentication service.
//!
//! The library keeps accounts with salted credential hashes, issues and
//! consumes single-use second-factor challenges, and issues, verifies and
//! revokes signed, expiring session tokens.  All state lives in plain
//! in-memory stores; callers supply the current time, so every operation is
//! a deterministic, fully specified function of its inputs.

pub mod hex;
pub mod text;
pub mod hasher;
pub mod user;
pub mod hashmap_user_store;
pub mod challenge;
pub mod token;
pub mod auth;

//! Authentication core: self-contained bearer tokens and password
//! credentials.
//!
//! The crate proves its behaviour with Verus. [`encoding`] holds the
//! canonical length-prefixed signing domain; [`token`] signs and verifies
//! `v4.public` tokens over it with Ed25519; [`auth`] generates keypairs and
//! derives and checks memory-hard password hashes; [`hexcode`] and
//! [`base64url`] pin down the two textual encodings; [`errors`] is the
//! closed error taxonomy. Every operation is a synchronous function of its
//! inputs (plus the secure random source behind salts and seeds): no shared
//! state, no I/O, no panic on any input.

pub mod auth;
pub mod base64url;
pub mod encoding;
pub mod errors;
pub mod hexcode;
pub mod models;
pub mod token;

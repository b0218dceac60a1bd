//! The wire-protocol core of a PostgreSQL client: exact-bytes encoding of
//! frontend messages, strict decoding of backend messages with framing
//! checks, and the decisions made while opening a connection.
//!
//! - `wire`: big-endian integers and C-style strings.
//! - `frontend`: client messages and their encoding.
//! - `backend`: server messages, their model and the grammar of payloads.
//! - `decode`: readers for server messages.
//! - `connect`: local socket paths and encryption negotiation steps.
//! - `laws`: properties that tie encoding and decoding together.

use vstd::prelude::*;

pub mod wire;
pub mod frontend;
pub mod backend;
pub mod decode;
pub mod connect;
pub mod laws;

verus! {

} // verus!

//! Session and protocol core of a real-time multiplayer game server:
//! configuration store, token validation, crypto handshake bookkeeping,
//! player directory and room membership, and the per-connection packet
//! dispatch state machine.

pub mod config;
pub mod crypto;
pub mod directory;
pub mod handlers;
pub mod session;
pub mod text;
pub mod token;

use vstd::prelude::*;

verus! {

/// Protocol version this server speaks; a client must match it exactly.
pub const PROTOCOL_VERSION: u16 = 2;

} // verus!

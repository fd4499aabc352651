//! Networking logic: the message protocol, client-side diagnostics and
//! addresses, and LAN discovery arithmetic.

use vstd::prelude::*;

pub mod client;
pub mod discovery;
pub mod protocol;

verus! {

/// UDP port on which hosts answer discovery broadcasts.
pub const DISCOVERY_PORT: u16 = 17635;

/// TCP port of the WebSocket sync service.
pub const WS_PORT: u16 = 17636;

} // verus!

//! Verified core of a LAN player-sync service: lyrics parsing (LRC and QRC),
//! connection diagnostics, manual host addresses, discovery arithmetic and the
//! runtime status transitions shared by host and client.

pub mod text;
pub mod models;
pub mod lyrics;
pub mod network;
pub mod player;
pub mod runtime;

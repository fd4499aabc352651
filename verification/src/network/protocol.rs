//! Messages exchanged between host and clients.

use vstd::prelude::*;
use crate::models::{HostInfo, LyricsDocument, PlayerCommand, RuntimeStatus};

verus! {

pub const PROTOCOL_VERSION: u16 = 1;

#[derive(Debug, Clone)]
pub enum ServerMessage {
    Runtime(Box<RuntimeStatus>),
    Lyrics(Option<LyricsDocument>),
    CommandResult { request_id: String, accepted: bool, error: Option<String> },
    Pong { client_time_ms: u64, server_time_ms: u64 },
}

#[derive(Debug, Clone)]
pub enum ClientMessage {
    Hello { client_name: String },
    Command { request_id: String, command: PlayerCommand },
    Ping { client_time_ms: u64 },
}

#[derive(Debug, Clone)]
pub struct DiscoveryRequest {
    pub protocol_version: u16,
    pub client_name: String,
}

#[derive(Debug, Clone)]
pub struct DiscoveryResponse {
    pub protocol_version: u16,
    pub host: HostInfo,
}

impl DiscoveryRequest {
    /// A request a host answers: one of this protocol version.
    pub fn is_compatible(&self) -> (r: bool)
        ensures
            r == (self.protocol_version == PROTOCOL_VERSION),
    {
        self.protocol_version == PROTOCOL_VERSION
    }
}

impl DiscoveryResponse {
    /// A response a client takes: one of this protocol version.
    pub fn is_compatible(&self) -> (r: bool)
        ensures
            r == (self.protocol_version == PROTOCOL_VERSION),
    {
        self.protocol_version == PROTOCOL_VERSION
    }
}

/// The answer to a player command sent by a client.
pub fn command_result_message(request_id: String, result: Result<(), String>) -> (r: ServerMessage)
    ensures
        r == (ServerMessage::CommandResult {
            request_id,
            accepted: result is Ok,
            error: match result {
                Ok(_) => None,
                Err(e) => Some(e),
            },
        }),
{
    match result {
        Ok(_) => ServerMessage::CommandResult { request_id, accepted: true, error: None },
        Err(e) => ServerMessage::CommandResult { request_id, accepted: false, error: Some(e) },
    }
}

} // verus!

//! Messages exchanged between clients and the server.
//!
//! Identifiers (clients, instances) are 128-bit UUIDs held as `u128`. The
//! client's ping timestamp is carried as the bit pattern of its 64-bit float,
//! which the server only echoes; byte rates are whole bytes per second.
use vstd::prelude::*;

verus! {

/// Public descriptor of an instance.
#[derive(Clone, Copy, Debug, PartialEq, Eq, Structural)]
pub struct InstanceInfo {
    pub id: u128,
    pub creator: u128,
    pub max_players: u32,
    pub current_players: u32,
}

/// A frame sent by a client.
#[derive(Clone, Debug, PartialEq, Eq)]
pub enum ClientMsg {
    Hello { client_id: u128, client_name: String },
    CreateInstance {},
    JoinInstance { instance_id: u128 },
    LeaveInstance {},
    CustomMsg { msg: Vec<u8> },
    /// `tick` is the bit pattern of the client's timestamp.
    Ping { tick: u64 },
    RefreshInstances,
}

/// A frame sent by the server.
#[derive(Clone, Debug, PartialEq, Eq)]
pub enum ServerMsg {
    JoinedLobby {},
    InstanceCreated { instance_id: u128 },
    Instances { instances: Vec<InstanceInfo> },
    JoinedInstance { instance: InstanceInfo },
    JoinRejected { instance: InstanceInfo },
    /// `tick` echoes the client's ping; the rates are bytes per second sent
    /// to and received from the client.
    Pong { tick: u64, server_bytes_sec: u64, client_bytes_sec: u64 },
    Custom { msg: Vec<u8> },
}

} // verus!

//! The typed messages exchanged between a client and the server.
use vstd::prelude::*;

use crate::model::{DispatcherState, GameRole, Player, SolverState};

verus! {

/// Identifier of one transport connection.
pub type ClientId = i64;

/// What a client learns about the room it joined.
#[derive(Debug, Clone)]
pub struct RoomInfo {
    pub code: String,
    pub players: usize,
}

/// Messages from the server to a client.
#[derive(Debug, Clone)]
pub enum ServerMessage {
    Ping,
    Error(String),
    YourToken(String),
    RoomJoined(RoomInfo),
    StartGame(GameRole),
    SyncDispatcherState(DispatcherState),
    SyncSolverState(SolverState),
    SyncSolverPlayer(Player),
}

/// Messages from a client to the server.
#[derive(Debug, Clone)]
pub enum ClientMessage {
    Pong,
    Login(String),
    CreateRoom,
    JoinRoom(String),
    SelectRole(GameRole),
    SyncDispatcherState(DispatcherState),
    SyncSolverState(SolverState),
    SyncSolverPlayer(Player),
}

} // verus!

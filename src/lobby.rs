//! The client's side of joining a room and waiting for the game to start.
//!
//! The transport is driven from outside: each received message goes through a
//! `step`, which says what to send back and whether the phase is over.
use vstd::prelude::*;

use crate::interop::{ClientMessage, RoomInfo, ServerMessage};
use crate::model::GameRole;

verus! {

/// What the client does after a message while it waits to enter a room.
pub enum HandshakeAction {
    /// Answer the keep-alive and keep waiting.
    Pong,
    /// Nothing to send; keep waiting.
    Wait,
    /// The room was entered.
    Joined(RoomInfo),
    /// The server refused, with its reason.
    Failed(String),
    /// A message that has no place here arrived.
    Unexpected,
}

/// Waiting for `RoomJoined` after asking to create or join a room; remembers
/// the token the server hands out on the way.
pub struct JoinHandshake {
    pub new_token: Option<String>,
}

impl JoinHandshake {
    pub fn new() -> (r: Self)
        ensures
            r.new_token is None,
    {
        JoinHandshake { new_token: None }
    }

    pub fn step(&mut self, message: ServerMessage) -> (r: HandshakeAction)
        ensures
            match message {
                ServerMessage::Ping => r is Pong && final(self).new_token == old(self).new_token,
                ServerMessage::YourToken(t) => r is Wait && final(self).new_token == Some(t),
                ServerMessage::RoomJoined(info) => (r matches HandshakeAction::Joined(i) && i == info)
                    && final(self).new_token == old(self).new_token,
                ServerMessage::Error(e) => (r matches HandshakeAction::Failed(m) && m == e)
                    && final(self).new_token == old(self).new_token,
                _ => r is Unexpected && final(self).new_token == old(self).new_token,
            },
    {
        match message {
            ServerMessage::Ping => HandshakeAction::Pong,
            ServerMessage::YourToken(t) => {
                self.new_token = Some(t);
                HandshakeAction::Wait
            },
            ServerMessage::RoomJoined(info) => HandshakeAction::Joined(info),
            ServerMessage::Error(e) => HandshakeAction::Failed(e),
            _ => HandshakeAction::Unexpected,
        }
    }
}

/// What the lobby does after a message.
pub enum LobbyAction {
    /// Send this message back.
    Reply(ClientMessage),
    /// Start the game in this role.
    Start(GameRole),
    /// Report the server's complaint and stay.
    Report(String),
    /// Nothing to do.
    Stay,
}

/// A room joined, waiting for both players to pick a role.
pub struct LobbyState {
    pub room_info: RoomInfo,
    pub selected_role: Option<GameRole>,
}

impl LobbyState {
    pub fn new(room_info: RoomInfo) -> (r: Self)
        ensures
            r.room_info == room_info,
            r.selected_role is None,
    {
        LobbyState { room_info, selected_role: None }
    }

    /// Picks a role; returns the message that tells the server.
    pub fn select_role(&mut self, role: GameRole) -> (r: ClientMessage)
        ensures
            final(self).selected_role == Some(role),
            final(self).room_info == old(self).room_info,
            r == ClientMessage::SelectRole(role),
    {
        self.selected_role = Some(role);
        ClientMessage::SelectRole(role)
    }

    pub fn handle_server_message(&self, message: ServerMessage) -> (r: LobbyAction)
        ensures
            match message {
                ServerMessage::Ping => r == LobbyAction::Reply(ClientMessage::Pong),
                ServerMessage::StartGame(role) => r == LobbyAction::Start(role),
                ServerMessage::Error(e) => r == LobbyAction::Report(e),
                _ => r is Stay,
            },
    {
        match message {
            ServerMessage::Ping => LobbyAction::Reply(ClientMessage::Pong),
            ServerMessage::StartGame(role) => LobbyAction::Start(role),
            ServerMessage::Error(e) => LobbyAction::Report(e),
            _ => LobbyAction::Stay,
        }
    }
}

} // verus!

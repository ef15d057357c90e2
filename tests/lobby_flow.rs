use friendly_jam::interop::{ClientMessage, RoomInfo, ServerMessage};
use friendly_jam::lobby::{HandshakeAction, JoinHandshake, LobbyAction, LobbyState};
use friendly_jam::model::GameRole;

#[test]
fn handshake_collects_token_and_room() {
    let mut h = JoinHandshake::new();
    assert!(matches!(h.step(ServerMessage::Ping), HandshakeAction::Pong));
    assert!(matches!(h.step(ServerMessage::YourToken("abc".to_string())), HandshakeAction::Wait));
    assert_eq!(h.new_token.as_deref(), Some("abc"));
    let info = RoomInfo { code: "ABCD".to_string(), players: 1 };
    match h.step(ServerMessage::RoomJoined(info)) {
        HandshakeAction::Joined(i) => {
            assert_eq!(i.code, "ABCD");
            assert_eq!(i.players, 1);
        }
        _ => panic!("expected to join"),
    }
}

#[test]
fn handshake_reports_refusal() {
    let mut h = JoinHandshake::new();
    match h.step(ServerMessage::Error("room already full".to_string())) {
        HandshakeAction::Failed(m) => assert_eq!(m, "room already full"),
        _ => panic!("expected a failure"),
    }
    assert!(matches!(h.step(ServerMessage::StartGame(GameRole::Solver)), HandshakeAction::Unexpected));
}

#[test]
fn lobby_answers_and_starts() {
    let mut lobby = LobbyState::new(RoomInfo { code: "ABCD".to_string(), players: 2 });
    assert!(matches!(lobby.select_role(GameRole::Dispatcher), ClientMessage::SelectRole(GameRole::Dispatcher)));
    assert_eq!(lobby.selected_role, Some(GameRole::Dispatcher));
    assert!(matches!(lobby.handle_server_message(ServerMessage::Ping), LobbyAction::Reply(ClientMessage::Pong)));
    assert!(matches!(
        lobby.handle_server_message(ServerMessage::StartGame(GameRole::Solver)),
        LobbyAction::Start(GameRole::Solver)
    ));
    assert!(matches!(lobby.handle_server_message(ServerMessage::YourToken("t".to_string())), LobbyAction::Stay));
}

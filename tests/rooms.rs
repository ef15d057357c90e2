use friendly_jam::interop::{ClientId, ClientMessage, ServerMessage};
use friendly_jam::model::{DispatcherState, GameRole, SolverState};
use friendly_jam::server::{Outgoing, RoomState, ServerState};

fn connect(server: &mut ServerState, token: &str) -> ClientId {
    let (id, out) = server.client_connect_with_token(token.to_string());
    assert_eq!(out.len(), 2);
    assert!(matches!(out[0], (i, ServerMessage::Ping) if i == id));
    assert!(matches!(&out[1], (i, ServerMessage::YourToken(t)) if *i == id && t == token));
    id
}

fn joined(out: &[Outgoing], to: ClientId, code: &str, players: usize) -> bool {
    out.len() == 1
        && matches!(&out[0], (i, ServerMessage::RoomJoined(info))
            if *i == to && info.code == code && info.players == players)
}

fn error(out: &[Outgoing], to: ClientId, text: &str) -> bool {
    out.len() == 1 && matches!(&out[0], (i, ServerMessage::Error(m)) if *i == to && m == text)
}

fn start_role(out: &[Outgoing], to: ClientId) -> Option<GameRole> {
    out.iter().find_map(|(i, m)| match m {
        ServerMessage::StartGame(r) if *i == to => Some(*r),
        _ => None,
    })
}

#[test]
fn create_join_and_start() {
    let mut server = ServerState::new(false);
    let a = connect(&mut server, "tokenA");
    let b = connect(&mut server, "tokenB");
    let out = server.create_room_with(a, &vec!["ABCD".to_string()]);
    assert!(joined(&out, a, "ABCD", 1));
    let out = server.handle_message(b, ClientMessage::JoinRoom("abcd".to_string()));
    assert!(joined(&out, b, "ABCD", 2));
    assert_eq!(server.rooms[0].players.len(), 2);
    assert_eq!(server.rooms[0].players[0].0, a);
    assert_eq!(server.rooms[0].players[1].0, b);

    let out = server.handle_message(a, ClientMessage::SelectRole(GameRole::Dispatcher));
    assert!(out.is_empty());
    let out = server.handle_message(b, ClientMessage::SelectRole(GameRole::Dispatcher));
    assert_eq!(out.len(), 2);
    let ra = start_role(&out, a).unwrap();
    let rb = start_role(&out, b).unwrap();
    assert_ne!(ra, rb);
    assert!(matches!(server.rooms[0].state, RoomState::Game(_)));
}

#[test]
fn equal_choices_are_settled_by_the_coin() {
    for coin in [false, true] {
        let mut server = ServerState::new(false);
        let a = connect(&mut server, "tokenA");
        let b = connect(&mut server, "tokenB");
        server.create_room_with(a, &vec!["WXYZ".to_string()]);
        server.join_room_upper(b, &"WXYZ".to_string());
        assert!(server.select_role_with(a, GameRole::Solver, coin).is_empty());
        let out = server.select_role_with(b, GameRole::Solver, coin);
        let (first, second) = if coin {
            (GameRole::Solver, GameRole::Dispatcher)
        } else {
            (GameRole::Dispatcher, GameRole::Solver)
        };
        assert_eq!(start_role(&out, a), Some(first));
        assert_eq!(start_role(&out, b), Some(second));
        assert_eq!(out[0].0, a);
        assert_eq!(out[1].0, b);
    }
}

#[test]
fn different_choices_are_kept() {
    let mut server = ServerState::new(false);
    let a = connect(&mut server, "tokenA");
    let b = connect(&mut server, "tokenB");
    server.create_room_with(a, &vec!["QQQQ".to_string()]);
    server.join_room_upper(b, &"QQQQ".to_string());
    server.select_role_with(a, GameRole::Solver, true);
    let out = server.select_role_with(b, GameRole::Dispatcher, true);
    assert_eq!(start_role(&out, a), Some(GameRole::Solver));
    assert_eq!(start_role(&out, b), Some(GameRole::Dispatcher));
}

#[test]
fn last_role_choice_wins() {
    let mut server = ServerState::new(false);
    let a = connect(&mut server, "tokenA");
    let b = connect(&mut server, "tokenB");
    server.create_room_with(a, &vec!["ROLE".to_string()]);
    server.join_room_upper(b, &"ROLE".to_string());
    assert!(server.select_role_with(a, GameRole::Dispatcher, false).is_empty());
    assert!(server.select_role_with(a, GameRole::Dispatcher, false).is_empty());
    assert!(server.select_role_with(a, GameRole::Solver, false).is_empty());
    match &server.rooms[0].state {
        RoomState::RoleSelection { roles } => assert_eq!(roles, &vec![(a, GameRole::Solver)]),
        RoomState::Game(_) => panic!("game started too early"),
    }
    let out = server.select_role_with(b, GameRole::Dispatcher, false);
    assert_eq!(start_role(&out, a), Some(GameRole::Solver));
    assert_eq!(start_role(&out, b), Some(GameRole::Dispatcher));
    // The game has started: further choices change nothing.
    let out = server.select_role_with(b, GameRole::Solver, true);
    assert!(error(&out, b, "unexpected message"));
}

#[test]
fn third_client_finds_room_full() {
    let mut server = ServerState::new(false);
    let a = connect(&mut server, "tokenA");
    let b = connect(&mut server, "tokenB");
    let c = connect(&mut server, "tokenC");
    server.create_room_with(a, &vec!["FULL".to_string()]);
    server.join_room_upper(b, &"FULL".to_string());
    let out = server.handle_message(c, ClientMessage::JoinRoom("FULL".to_string()));
    assert!(error(&out, c, "room already full"));
    assert_eq!(server.rooms[0].players.len(), 2);
    assert_eq!(server.rooms[0].players[0].0, a);
    assert_eq!(server.rooms[0].players[1].0, b);
    assert!(server.clients[2].room.is_none());
}

#[test]
fn unknown_room_code() {
    let mut server = ServerState::new(false);
    let a = connect(&mut server, "tokenA");
    let out = server.handle_message(a, ClientMessage::JoinRoom("nope".to_string()));
    assert!(error(&out, a, "non-existent room code"));
}

#[test]
fn reconnect_gets_latest_progress() {
    let mut server = ServerState::new(false);
    let a = connect(&mut server, "tokenA");
    let b = connect(&mut server, "tokenB");
    server.create_room_with(a, &vec!["GAME".to_string()]);
    server.join_room_upper(b, &"GAME".to_string());
    server.select_role_with(a, GameRole::Solver, false);
    server.select_role_with(b, GameRole::Dispatcher, false);

    let progress = SolverState {
        current_level: 2,
        levels_completed: 3,
        trashcan_evil: false,
        solved_bubble_code: false,
    };
    let out = server.handle_message(a, ClientMessage::SyncSolverState(progress));
    assert_eq!(out.len(), 1);
    assert!(matches!(out[0], (i, ServerMessage::SyncSolverState(s)) if i == b && s == progress));
    let ds = DispatcherState { button_station_open: true, door_sign_open: true, monitor_unlocked: false };
    let out = server.handle_message(b, ClientMessage::SyncDispatcherState(ds));
    assert!(matches!(out[0], (i, ServerMessage::SyncDispatcherState(s)) if i == a && s == ds));

    server.client_disconnect(b);
    server.tick();
    assert_eq!(server.rooms.len(), 1);
    assert_eq!(server.rooms[0].players.len(), 2);

    let b2 = connect(&mut server, "other");
    let out = server.handle_message(b2, ClientMessage::Login("tokenB".to_string()));
    assert!(matches!(&out[0], (i, ServerMessage::YourToken(t)) if *i == b2 && t == "tokenB"));
    let out = server.handle_message(b2, ClientMessage::JoinRoom("game".to_string()));
    assert_eq!(out.len(), 3);
    assert!(matches!(&out[0], (i, ServerMessage::RoomJoined(info)) if *i == b2 && info.code == "GAME" && info.players == 2));
    assert!(matches!(out[1], (i, ServerMessage::SyncSolverState(s)) if i == b2 && s == progress));
    assert!(matches!(out[2], (i, ServerMessage::SyncDispatcherState(s)) if i == b2 && s == ds));
    assert_eq!(server.rooms[0].players[1].0, b2);
}

#[test]
fn stranger_cannot_join_running_game() {
    let mut server = ServerState::new(false);
    let a = connect(&mut server, "tokenA");
    let b = connect(&mut server, "tokenB");
    let c = connect(&mut server, "tokenC");
    server.create_room_with(a, &vec!["LIVE".to_string()]);
    server.join_room_upper(b, &"LIVE".to_string());
    server.select_role_with(a, GameRole::Solver, false);
    server.select_role_with(b, GameRole::Dispatcher, false);
    let out = server.join_room_upper(c, &"LIVE".to_string());
    assert!(error(&out, c, "cannot join an ongoing game"));
}

#[test]
fn relay_is_not_echoed_and_needs_a_game() {
    let mut server = ServerState::new(false);
    let a = connect(&mut server, "tokenA");
    let out = server.handle_message(a, ClientMessage::SyncSolverState(SolverState::new()));
    assert!(error(&out, a, "unexpected message"));
    let out = server.handle_message(a, ClientMessage::SelectRole(GameRole::Solver));
    assert!(error(&out, a, "unexpected message"));
    server.create_room_with(a, &vec!["SOLO".to_string()]);
    let out = server.handle_message(a, ClientMessage::CreateRoom);
    assert!(error(&out, a, "unexpected message"));
}

#[test]
fn single_player_test_mode_starts_alone() {
    let mut server = ServerState::new(true);
    let a = connect(&mut server, "tokenA");
    server.create_room_with(a, &vec!["TEST".to_string()]);
    let out = server.select_role_with(a, GameRole::Solver, false);
    assert_eq!(start_role(&out, a), Some(GameRole::Solver));
    let out = server.handle_message(a, ClientMessage::SyncSolverState(SolverState::new()));
    assert!(out.is_empty());
}

#[test]
fn code_candidates_skip_taken_and_malformed() {
    let mut server = ServerState::new(false);
    let a = connect(&mut server, "tokenA");
    let b = connect(&mut server, "tokenB");
    server.create_room_with(a, &vec!["ABCD".to_string()]);
    let cands = vec!["ABCD".to_string(), "abcd".to_string(), "ABC".to_string(), "AB1D".to_string(), "EFGH".to_string()];
    let out = server.create_room_with(b, &cands);
    assert!(joined(&out, b, "EFGH", 1));
    let c = connect(&mut server, "tokenC");
    let out = server.create_room_with(c, &vec!["ABCD".to_string(), "EFGH".to_string()]);
    assert!(error(&out, c, "could not create a room"));
    assert_eq!(server.rooms.len(), 2);
}

#[test]
fn random_codes_are_distinct_letters() {
    let mut server = ServerState::new(false);
    for _ in 0..40 {
        let (id, _) = server.client_connect();
        let out = server.handle_message(id, ClientMessage::CreateRoom);
        assert_eq!(out.len(), 1);
        assert!(matches!(out[0].1, ServerMessage::RoomJoined(_)));
    }
    assert_eq!(server.rooms.len(), 40);
    for (i, r) in server.rooms.iter().enumerate() {
        assert_eq!(r.code.len(), 4);
        assert!(r.code.chars().all(|c| c.is_ascii_uppercase()));
        for other in &server.rooms[..i] {
            assert_ne!(other.code, r.code);
        }
    }
}

#[test]
fn fresh_tokens_are_alphanumeric() {
    let mut server = ServerState::new(false);
    let (id, out) = server.client_connect();
    assert_eq!(id, 1);
    let token = match &out[1].1 {
        ServerMessage::YourToken(t) => t.clone(),
        _ => panic!("no token"),
    };
    assert_eq!(token.len(), 16);
    assert!(token.chars().all(|c| c.is_ascii_alphanumeric()));
    assert_eq!(server.clients[0].token, token);
    let (id2, _) = server.client_connect();
    assert_eq!(id2, 2);
}

#[test]
fn pong_is_answered_with_ping() {
    let mut server = ServerState::new(false);
    let a = connect(&mut server, "tokenA");
    let out = server.handle_message(a, ClientMessage::Pong);
    assert!(matches!(out[..], [(i, ServerMessage::Ping)] if i == a));
}

#[test]
fn leaving_during_role_selection_frees_the_slot() {
    let mut server = ServerState::new(false);
    let a = connect(&mut server, "tokenA");
    let b = connect(&mut server, "tokenB");
    server.create_room_with(a, &vec!["LEFT".to_string()]);
    server.join_room_upper(b, &"LEFT".to_string());
    server.select_role_with(b, GameRole::Solver, false);
    server.client_disconnect(b);
    assert!(!server.has_client(b));
    assert_eq!(server.rooms[0].players.len(), 1);
    match &server.rooms[0].state {
        RoomState::RoleSelection { roles } => assert!(roles.is_empty()),
        RoomState::Game(_) => panic!("no game expected"),
    }
    server.client_disconnect(a);
    assert!(server.rooms.is_empty());
}

#[test]
fn tick_discards_rooms_without_connected_players() {
    let mut server = ServerState::new(false);
    let a = connect(&mut server, "tokenA");
    let b = connect(&mut server, "tokenB");
    server.create_room_with(a, &vec!["KEEP".to_string()]);
    server.join_room_upper(b, &"KEEP".to_string());
    server.select_role_with(a, GameRole::Solver, false);
    server.select_role_with(b, GameRole::Dispatcher, false);
    server.client_disconnect(a);
    server.tick();
    assert_eq!(server.rooms.len(), 1);
    server.client_disconnect(b);
    server.tick();
    assert!(server.rooms.is_empty());
}

#[test]
fn leaving_after_login_frees_own_slot() {
    let mut server = ServerState::new(false);
    let a = connect(&mut server, "tokenA");
    let b = connect(&mut server, "tokenB");
    server.create_room_with(a, &vec!["SLOT".to_string()]);
    server.join_room_upper(b, &"SLOT".to_string());
    server.handle_message(b, ClientMessage::Login("renamed".to_string()));
    server.client_disconnect(b);
    assert_eq!(server.rooms[0].players.len(), 1);
    assert_eq!(server.rooms[0].players[0].0, a);
}

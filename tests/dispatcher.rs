use guess_server::{
    route, ClientServerMessage, Connect, Disconnect, EndGameMsg, GameState, GameStatus, GameTypes,
    GetPlayerDetails, MessageTypes, Outgoing, Payload, RelayTypes, RoomDetails, Route, Server,
    StartGameMsg, UserGuessMsg,
};

const ROOM: u128 = 0x1111_2222_3333_4444_5555_6666_7777_8888;
const A: u128 = 0x0a;
const B: u128 = 0x0b;

fn connect(server: &mut Server, user: u128, name: &str) -> guess_server::Broadcast {
    server.handle_connect(Connect { user_id: user, username: name.to_string(), room_id: ROOM })
}

fn game_msg(t: GameTypes) -> ClientServerMessage {
    ClientServerMessage { msg_type: MessageTypes::Game(t), content: String::new() }
}

fn proposed(total_rounds: usize) -> GameState {
    GameState {
        total_rounds,
        current_round: 1,
        currently_drawing: 0,
        title: "Fruit".to_string(),
        correct_word: "secret".to_string(),
        round_start_time: 0,
    }
}

fn end_turn(server: &mut Server, user: u128) -> Option<guess_server::Broadcast> {
    server.handle_user_message(
        user,
        ROOM,
        game_msg(GameTypes::EndTurn),
        Payload::EndTurn(EndGameMsg { user_id: user, room_id: ROOM }),
        0,
    )
}

fn start(server: &mut Server, user: u128, rounds: usize, now: u128) -> Option<guess_server::Broadcast> {
    server.handle_user_message(
        user,
        ROOM,
        game_msg(GameTypes::StartGame),
        Payload::StartGame(StartGameMsg { user_id: user, room_id: ROOM, state: proposed(rounds) }),
        now,
    )
}

fn player(server: &Server, user: u128) -> guess_server::Player {
    server.get_player_details(user, ROOM).expect("player is in the room").clone()
}

#[test]
fn new_server_holds_only_the_lobby() {
    let server = Server::new();
    let lobby = server.get_room_details(0x67e55044_10b1_426f_9247_bb680e5fe0c8).expect("lobby");
    assert_eq!(lobby.status, GameStatus::WAITING);
    assert!(lobby.players.is_empty());
    assert!(server.get_room_details(ROOM).is_none());
}

#[test]
fn first_join_creates_room_with_owner() {
    let mut server = Server::new();
    let b = connect(&mut server, A, "alice");
    assert!(b.recipients.is_empty());
    assert_eq!(b.msg_type, MessageTypes::Game(GameTypes::PlayerJoined));
    match &b.event {
        Outgoing::Movement(m) => {
            assert!(m.enter);
            assert_eq!(m.user_id, A);
            assert_eq!(m.player.username, "alice");
            assert_eq!(m.player.score, 0);
            assert!(m.player.active);
        }
        other => panic!("unexpected event {:?}", other),
    }
    let room = server.get_room_details(ROOM).unwrap();
    assert_eq!(room.owner, A);
    assert_eq!(room.players.len(), 1);
    assert_eq!(player(&server, A).username, "alice");
}

#[test]
fn join_scenario_start_rotate_and_end_game() {
    let mut server = Server::new();
    connect(&mut server, A, "alice");
    let joined = connect(&mut server, B, "bob");
    assert_eq!(joined.recipients, vec![A]);
    match &joined.event {
        Outgoing::Movement(m) => {
            assert!(m.enter);
            assert_eq!(m.user_id, B);
            assert_eq!(m.player.username, "bob");
            assert_eq!(m.player.score, 0);
            assert!(m.player.active);
        }
        other => panic!("unexpected event {:?}", other),
    }

    let started = start(&mut server, A, 2, 1_000).expect("owner starts");
    assert_eq!(started.msg_type, MessageTypes::Game(GameTypes::NewTurn));
    assert_eq!(started.recipients, vec![A, B]);
    match &started.event {
        Outgoing::Snapshot(room) => {
            assert_eq!(room.status, GameStatus::STARTED);
            assert_eq!(room.state.current_round, 1);
            assert_eq!(room.state.currently_drawing, 0);
        }
        other => panic!("unexpected event {:?}", other),
    }

    let drawer = server.get_room_details(ROOM).unwrap().players[0].0;
    assert_eq!(drawer, A);
    let t1 = end_turn(&mut server, A).unwrap();
    assert_eq!(t1.msg_type, MessageTypes::Game(GameTypes::NewTurn));
    assert_eq!(server.get_room_details(ROOM).unwrap().state.currently_drawing, 1);

    end_turn(&mut server, B).unwrap();
    let st = &server.get_room_details(ROOM).unwrap().state;
    assert_eq!(st.current_round, 2);
    assert_eq!(st.currently_drawing, 0);

    end_turn(&mut server, A).unwrap();
    let last = end_turn(&mut server, B).unwrap();
    assert_eq!(last.msg_type, MessageTypes::Game(GameTypes::EndGame));
    assert_eq!(last.recipients, vec![A, B]);
    assert!(server.get_room_details(ROOM).is_none());
    assert!(server.handle_room_details(RoomDetails(ROOM)).is_none());
}

#[test]
fn disconnect_and_rejoin_scenario() {
    let mut server = Server::new();
    connect(&mut server, A, "alice");
    connect(&mut server, B, "bob");
    start(&mut server, A, 2, 0);
    let g = server.validate_guess(
        UserGuessMsg { user_id: B, username: "bob".to_string(), content: "default".to_string() },
        ROOM,
        30_000,
    );
    assert_eq!(g.unwrap().recipients, vec![A, B]);
    assert_eq!(player(&server, B).score, 50);

    let left = server.handle_disconnect(Disconnect { room_id: ROOM, user_id: B }).expect("B had a session");
    assert_eq!(left.msg_type, MessageTypes::Game(GameTypes::PlayerLeft));
    assert_eq!(left.recipients, vec![A]);
    match &left.event {
        Outgoing::Movement(m) => {
            assert!(!m.enter);
            assert_eq!(m.user_id, B);
        }
        other => panic!("unexpected event {:?}", other),
    }
    assert!(server.get_room_details(ROOM).is_some());
    assert!(!player(&server, B).active);
    assert_eq!(player(&server, B).score, 50);

    let back = connect(&mut server, B, "someone else");
    assert_eq!(back.recipients, vec![A]);
    let p = player(&server, B);
    assert!(p.active);
    assert_eq!(p.score, 50);
    assert_eq!(p.prev_score, 0);
    assert_eq!(p.username, "bob");
    assert_eq!(server.get_room_details(ROOM).unwrap().players.len(), 2);
}

#[test]
fn last_active_player_leaving_removes_room_once() {
    let mut server = Server::new();
    connect(&mut server, A, "alice");
    connect(&mut server, B, "bob");
    server.handle_disconnect(Disconnect { room_id: ROOM, user_id: B }).unwrap();
    assert!(server.get_room_details(ROOM).is_some());
    let left = server.handle_disconnect(Disconnect { room_id: ROOM, user_id: A }).unwrap();
    assert!(left.recipients.is_empty());
    assert!(server.get_room_details(ROOM).is_none());
    assert!(server.handle_disconnect(Disconnect { room_id: ROOM, user_id: A }).is_none());
}

#[test]
fn sole_player_leaving_removes_room() {
    let mut server = Server::new();
    connect(&mut server, A, "alice");
    server.handle_disconnect(Disconnect { room_id: ROOM, user_id: A }).unwrap();
    assert!(server.get_room_details(ROOM).is_none());
}

#[test]
fn disconnect_without_session_does_nothing() {
    let mut server = Server::new();
    connect(&mut server, A, "alice");
    assert!(server.handle_disconnect(Disconnect { room_id: ROOM, user_id: B }).is_none());
    assert!(server.get_room_details(ROOM).is_some());
}

#[test]
fn non_owner_start_is_silent() {
    let mut server = Server::new();
    connect(&mut server, A, "alice");
    connect(&mut server, B, "bob");
    assert!(start(&mut server, B, 2, 0).is_none());
    assert_eq!(server.get_room_details(ROOM).unwrap().status, GameStatus::WAITING);
}

#[test]
fn relay_goes_to_everyone_but_sender() {
    let mut server = Server::new();
    connect(&mut server, A, "alice");
    connect(&mut server, B, "bob");
    let msg = ClientServerMessage { msg_type: MessageTypes::Relay(RelayTypes::Draw), content: "{\"x\":1}".to_string() };
    let b = server.handle_user_message(A, ROOM, msg, Payload::Malformed, 0).unwrap();
    assert_eq!(b.recipients, vec![B]);
    assert_eq!(b.msg_type, MessageTypes::Relay(RelayTypes::Draw));
    match b.event {
        Outgoing::Raw(s) => assert_eq!(s, "{\"x\":1}"),
        other => panic!("unexpected event {:?}", other),
    }
}

#[test]
fn undecodable_payload_is_dropped() {
    let mut server = Server::new();
    connect(&mut server, A, "alice");
    assert!(server.handle_user_message(A, ROOM, game_msg(GameTypes::StartGame), Payload::Malformed, 0).is_none());
    assert!(server.handle_user_message(A, ROOM, game_msg(GameTypes::Guess), Payload::Malformed, 0).is_none());
    assert!(server.handle_user_message(A, ROOM, game_msg(GameTypes::EndTurn), Payload::Malformed, 0).is_none());
    assert_eq!(server.get_room_details(ROOM).unwrap().status, GameStatus::WAITING);
}

#[test]
fn routes_by_type() {
    assert_eq!(route(MessageTypes::Game(GameTypes::StartGame)), Route::StartGame);
    assert_eq!(route(MessageTypes::Game(GameTypes::EndTurn)), Route::EndTurn);
    assert_eq!(route(MessageTypes::Game(GameTypes::Guess)), Route::Guess);
    assert_eq!(route(MessageTypes::Game(GameTypes::NewTurn)), Route::Relay);
    assert_eq!(route(MessageTypes::Relay(RelayTypes::Text)), Route::Relay);
}

#[test]
fn players_without_session_are_skipped() {
    let mut server = Server::new();
    connect(&mut server, A, "alice");
    connect(&mut server, B, "bob");
    server.handle_disconnect(Disconnect { room_id: ROOM, user_id: B }).unwrap();
    assert_eq!(server.recipients(ROOM, None), vec![A]);
    assert!(server.recipients(42, None).is_empty());
    let one = server.send_user_message(MessageTypes::Game(GameTypes::GameState), "x".to_string(), B);
    assert!(one.recipients.is_empty());
    let one = server.send_user_message(MessageTypes::Game(GameTypes::GameState), "x".to_string(), A);
    assert_eq!(one.recipients, vec![A]);
}

#[test]
fn player_lookup() {
    let mut server = Server::new();
    connect(&mut server, A, "alice");
    let d = server.handle_player_details(GetPlayerDetails { user_id: A, room_id: ROOM }).unwrap();
    assert_eq!(d.user_id, A);
    assert_eq!(d.player.username, "alice");
    assert!(server.handle_player_details(GetPlayerDetails { user_id: B, room_id: ROOM }).is_none());
    assert!(server.handle_player_details(GetPlayerDetails { user_id: A, room_id: 5 }).is_none());
}

#[test]
fn guess_in_unknown_room_is_silent() {
    let mut server = Server::new();
    let r = server.validate_guess(
        UserGuessMsg { user_id: A, username: "a".to_string(), content: "default".to_string() },
        ROOM,
        0,
    );
    assert!(r.is_none());
    assert!(server.end_turn(EndGameMsg { user_id: A, room_id: ROOM }, ROOM).is_none());
}

#[test]
fn join_room_returns_created_player() {
    let mut server = Server::new();
    let p = server.join_room(A, ROOM, "alice".to_string());
    assert_eq!(p.username, "alice");
    assert_eq!(p.score, 0);
    assert!(p.active);
}

#[test]
fn joining_twice_changes_nothing() {
    let mut server = Server::new();
    let first = server.join_room(A, ROOM, "alice".to_string());
    server.join_room(B, ROOM, "bob".to_string());
    let again = server.join_room(A, ROOM, "other".to_string());
    assert_eq!(again.username, first.username);
    assert_eq!(server.get_room_details(ROOM).unwrap().players.len(), 2);
}

#[test]
fn start_payload_cannot_speak_for_the_owner() {
    let mut server = Server::new();
    connect(&mut server, A, "alice");
    connect(&mut server, B, "bob");
    let spoofed = Payload::StartGame(StartGameMsg { user_id: A, room_id: ROOM, state: proposed(2) });
    assert!(server.handle_user_message(B, ROOM, game_msg(GameTypes::StartGame), spoofed, 0).is_none());
    assert_eq!(server.get_room_details(ROOM).unwrap().status, GameStatus::WAITING);
}

#[test]
fn start_payload_cannot_name_another_room() {
    let mut server = Server::new();
    connect(&mut server, A, "alice");
    let other = Payload::StartGame(StartGameMsg { user_id: A, room_id: 77, state: proposed(2) });
    let b = server.handle_user_message(A, ROOM, game_msg(GameTypes::StartGame), other, 0).unwrap();
    assert_eq!(b.msg_type, MessageTypes::Game(GameTypes::NewTurn));
    assert_eq!(server.get_room_details(ROOM).unwrap().status, GameStatus::STARTED);
    assert!(server.get_room_details(77).is_none());
}

#[test]
fn end_turn_payload_cannot_speak_for_the_drawer() {
    let mut server = Server::new();
    connect(&mut server, A, "alice");
    connect(&mut server, B, "bob");
    start(&mut server, A, 2, 0);
    let spoofed = Payload::EndTurn(EndGameMsg { user_id: A, room_id: ROOM });
    server.handle_user_message(B, ROOM, game_msg(GameTypes::EndTurn), spoofed, 0).unwrap();
    assert_eq!(server.get_room_details(ROOM).unwrap().state.currently_drawing, 0);
}

#[test]
fn guess_is_credited_to_the_sender() {
    let mut server = Server::new();
    connect(&mut server, A, "alice");
    connect(&mut server, B, "bob");
    start(&mut server, A, 2, 0);
    let g = Payload::Guess(UserGuessMsg { user_id: A, username: "bob".to_string(), content: "default".to_string() });
    server.handle_user_message(B, ROOM, game_msg(GameTypes::Guess), g, 0).unwrap();
    assert_eq!(player(&server, B).score, 100);
    assert_eq!(player(&server, A).score, 0);
}

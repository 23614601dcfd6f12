use guess_server::{award, EndGameMsg, GameState, GameStatus, Player, Room, StartGameMsg, UserGuessMsg};

const A: u128 = 10;
const B: u128 = 20;
const C: u128 = 30;

fn proposed(total_rounds: usize) -> GameState {
    GameState {
        total_rounds,
        current_round: 1,
        currently_drawing: 0,
        title: "Animals".to_string(),
        correct_word: "ignored".to_string(),
        round_start_time: 0,
    }
}

fn room_of(ids: &[u128]) -> Room {
    let mut room = Room::new(ids[0], 1, "owner".to_string());
    for id in &ids[1..] {
        room.add_player(*id, Player::default(format!("p{}", id)));
    }
    room
}

fn guess(user: u128, text: &str) -> UserGuessMsg {
    UserGuessMsg { user_id: user, username: "g".to_string(), content: text.to_string() }
}

#[test]
fn new_room_has_owner_as_sole_player() {
    let room = Room::new(A, 7, "alice".to_string());
    assert_eq!(room.room_id, 7);
    assert_eq!(room.owner, A);
    assert_eq!(room.status, GameStatus::WAITING);
    assert_eq!(room.players.len(), 1);
    assert_eq!(room.players[0].0, A);
    assert_eq!(room.players[0].1.username, "alice");
    assert_eq!(room.players[0].1.score, 0);
    assert!(room.players[0].1.active);
}

#[test]
fn default_state_values() {
    let st = GameState::default();
    assert_eq!(st.total_rounds, 3);
    assert_eq!(st.current_round, 1);
    assert_eq!(st.currently_drawing, 0);
    assert_eq!(st.title, "Default room");
    assert_eq!(st.correct_word, "default");
}

#[test]
fn default_player_values() {
    let p = Player::default("bob".to_string());
    assert_eq!(p.username, "bob");
    assert_eq!(p.score, 0);
    assert_eq!(p.prev_score, 0);
    assert!(p.active);
}

#[test]
fn players_are_kept_in_identity_order() {
    let mut room = Room::new(B, 1, "b".to_string());
    room.add_player(C, Player::default("c".to_string()));
    room.add_player(A, Player::default("a".to_string()));
    let ids: Vec<u128> = room.players.iter().map(|e| e.0).collect();
    assert_eq!(ids, vec![A, B, C]);
}

#[test]
fn owner_starts_game_with_placeholder_word() {
    let mut room = room_of(&[A, B]);
    let snap = room.start_game(StartGameMsg { user_id: A, room_id: 1, state: proposed(2) }, 5_000);
    assert_eq!(room.status, GameStatus::STARTED);
    assert_eq!(room.state.total_rounds, 2);
    assert_eq!(room.state.title, "Animals");
    assert_eq!(room.state.correct_word, "default");
    assert_eq!(room.state.round_start_time, 5_000);
    let snap = snap.expect("owner starts the game");
    assert_eq!(snap.status, GameStatus::STARTED);
    assert_eq!(snap.state.correct_word, "default");
}

#[test]
fn non_owner_start_changes_nothing() {
    let mut room = room_of(&[A, B]);
    let r = room.start_game(StartGameMsg { user_id: B, room_id: 1, state: proposed(2) }, 5_000);
    assert!(r.is_none());
    assert_eq!(room.status, GameStatus::WAITING);
    assert_eq!(room.state.total_rounds, 3);
}

#[test]
fn award_formula_values() {
    assert_eq!(award(0, 0), 100);
    assert_eq!(award(0, 999), 100);
    assert_eq!(award(0, 30_000), 50);
    assert_eq!(award(0, 59_999), 1);
    assert_eq!(award(1_000, 13_000), 80);
}

#[test]
fn award_after_sixty_seconds_is_zero() {
    assert_eq!(award(0, 60_000), 0);
    assert_eq!(award(0, 61_000), 0);
    assert_eq!(award(0, u128::MAX), 0);
}

#[test]
fn award_with_clock_behind_start_counts_no_time() {
    assert_eq!(award(10_000, 5_000), 100);
}

#[test]
fn correct_guess_after_trimming_scores() {
    let mut room = room_of(&[A, B]);
    room.start_game(StartGameMsg { user_id: A, room_id: 1, state: proposed(2) }, 0);
    room.players[1].1.score = 7;
    let r = room.validate_guess(guess(B, "  default \n"), 30_000).unwrap();
    assert!(r.correct);
    assert_eq!(r.user_id, B);
    assert_eq!(r.content, "  default \n");
    assert_eq!(room.players[1].1.prev_score, 7);
    assert_eq!(room.players[1].1.score, 57);
}

#[test]
fn guess_is_case_sensitive() {
    let mut room = room_of(&[A, B]);
    room.start_game(StartGameMsg { user_id: A, room_id: 1, state: proposed(2) }, 0);
    let r = room.validate_guess(guess(B, "Default"), 1_000).unwrap();
    assert!(!r.correct);
    assert_eq!(room.players[1].1.score, 0);
}

#[test]
fn late_correct_guess_gets_no_points_and_no_panic() {
    let mut room = room_of(&[A, B]);
    room.start_game(StartGameMsg { user_id: A, room_id: 1, state: proposed(2) }, 0);
    room.players[1].1.score = 3;
    let r = room.validate_guess(guess(B, "default"), 120_000).unwrap();
    assert!(r.correct);
    assert_eq!(room.players[1].1.score, 3);
    assert_eq!(room.players[1].1.prev_score, 3);
}

#[test]
fn correct_guess_at_largest_score_saturates() {
    let mut room = room_of(&[A, B]);
    room.start_game(StartGameMsg { user_id: A, room_id: 1, state: proposed(2) }, 0);
    room.players[1].1.score = usize::MAX - 1;
    room.validate_guess(guess(B, "default"), 0).unwrap();
    assert_eq!(room.players[1].1.score, usize::MAX);
}

#[test]
fn correct_guess_from_stranger_scores_nobody() {
    let mut room = room_of(&[A, B]);
    room.start_game(StartGameMsg { user_id: A, room_id: 1, state: proposed(2) }, 0);
    let r = room.validate_guess(guess(C, "default"), 0).unwrap();
    assert!(r.correct);
    assert!(room.players.iter().all(|e| e.1.score == 0));
}

#[test]
fn end_turn_rotates_then_advances_round_then_ends() {
    let mut room = room_of(&[A, B]);
    room.start_game(StartGameMsg { user_id: A, room_id: 1, state: proposed(2) }, 0);
    let (_, ended) = room.end_turn(EndGameMsg { user_id: A, room_id: 1 });
    assert!(!ended);
    assert_eq!(room.state.currently_drawing, 1);
    let (snap, ended) = room.end_turn(EndGameMsg { user_id: B, room_id: 1 });
    assert!(!ended);
    assert_eq!(room.state.current_round, 2);
    assert_eq!(room.state.currently_drawing, 0);
    assert_eq!(snap.unwrap().state.current_round, 2);
    room.end_turn(EndGameMsg { user_id: A, room_id: 1 });
    let (_, ended) = room.end_turn(EndGameMsg { user_id: B, room_id: 1 });
    assert!(ended);
    assert_eq!(room.state.current_round, 2);
    assert_eq!(room.state.currently_drawing, 1);
}

#[test]
fn end_turn_from_non_drawer_is_ignored() {
    let mut room = room_of(&[A, B]);
    room.start_game(StartGameMsg { user_id: A, room_id: 1, state: proposed(2) }, 0);
    let (snap, ended) = room.end_turn(EndGameMsg { user_id: B, room_id: 1 });
    assert!(!ended);
    assert_eq!(room.state.currently_drawing, 0);
    assert_eq!(snap.unwrap().state.currently_drawing, 0);
}

#[test]
fn drawer_index_stays_in_roster_over_a_game() {
    let mut room = room_of(&[A, B, C]);
    room.start_game(StartGameMsg { user_id: A, room_id: 1, state: proposed(3) }, 0);
    for _ in 0..20 {
        let drawer = room.players[room.state.currently_drawing].0;
        let (_, ended) = room.end_turn(EndGameMsg { user_id: drawer, room_id: 1 });
        assert!(room.state.currently_drawing < room.players.len());
        if ended {
            break;
        }
    }
}

#[test]
fn score_guess_compares_trimmed_text_exactly() {
    let mut room = room_of(&[A, B]);
    room.start_game(StartGameMsg { user_id: A, room_id: 1, state: proposed(2) }, 0);
    let r = room.score_guess(guess(B, " default "), "default", 6_000).unwrap();
    assert!(r.correct);
    assert_eq!(r.content, " default ");
    assert_eq!(room.players[1].1.score, 90);
    let r = room.score_guess(guess(B, "default"), " default", 6_000).unwrap();
    assert!(!r.correct);
    assert_eq!(room.players[1].1.score, 90);
}

#[test]
fn unicode_white_space_is_trimmed_from_guess() {
    let mut room = room_of(&[A, B]);
    room.start_game(StartGameMsg { user_id: A, room_id: 1, state: proposed(2) }, 0);
    let r = room.validate_guess(guess(B, "\u{3000}\tdefault\u{85}\u{2028}"), 0).unwrap();
    assert!(r.correct);
    let r = room.validate_guess(guess(B, "de fault"), 0).unwrap();
    assert!(!r.correct);
}

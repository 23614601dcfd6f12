//! The dispatcher: the single owner of all rooms and of the table of live
//! sessions. Every operation is one step on that state, and says to whom
//! its event goes.
use vstd::prelude::*;

use std::collections::{HashMap, HashSet};

use crate::ids::fresh_id;
use crate::messages::{
    ClientServerMessage, Connect, Disconnect, EndGameMsg, GameTypes, GetPlayerDetails,
    GuessResultMsg, MessageTypes, RoomDetails, StartGameMsg, UserGuessMsg,
};
use crate::room::{
    end_turn_keeps_drawer_in_roster, has_id, ids_sorted, insertion_point, lemma_insertion_point_exists,
    lemma_slot_at, others_active, slot_of, trimmed_of, with_player, GameState, GameStatus, Player, Room, RoomView,
};

verus! {

/// The room that exists from the start, before anyone joins it.
pub const LOBBY_ROOM: u128 = 0x67e5_5044_10b1_426f_9247_bb68_0e5f_e0c8;

/// A player entering (`enter`) or leaving a room.
#[derive(Clone, Debug)]
pub struct PlayerMovement {
    pub enter: bool,
    pub user_id: u128,
    pub player: Player,
}

#[derive(Clone, Debug)]
pub struct PlayerDetails {
    pub user_id: u128,
    pub player: Player,
}

/// The content of an outbound envelope, before it is encoded.
#[derive(Debug)]
pub enum Outgoing {
    Movement(PlayerMovement),
    Snapshot(Room),
    Guess(GuessResultMsg),
    Raw(String),
}

/// One envelope and the sessions it is delivered to, in roster order.
#[derive(Debug)]
pub struct Broadcast {
    pub msg_type: MessageTypes,
    pub event: Outgoing,
    pub recipients: Vec<u128>,
}

/// What the dispatcher does with an envelope of a given type.
#[derive(Clone, Copy, Debug, PartialEq, Eq, Structural)]
pub enum Route {
    StartGame,
    EndTurn,
    Guess,
    Relay,
}

/// The decoded content of an envelope whose type the dispatcher acts on;
/// `Malformed` when it could not be decoded, or for a relayed type.
#[derive(Debug)]
pub enum Payload {
    StartGame(StartGameMsg),
    EndTurn(EndGameMsg),
    Guess(UserGuessMsg),
    Malformed,
}

pub struct Server {
    sessions: HashSet<u128>,
    rooms: HashMap<u128, Room>,
}

/// The dispatcher's state: the identities with a live session, and the rooms by id.
pub struct ServerView {
    pub sessions: Set<u128>,
    pub rooms: Map<u128, RoomView>,
}

impl View for Server {
    type V = ServerView;

    closed spec fn view(&self) -> ServerView {
        ServerView {
            sessions: self.sessions@,
            rooms: Map::new(|k: u128| self.rooms@.contains_key(k), |k: u128| self.rooms@[k]@),
        }
    }
}

/// The players of a roster, in order, that have a live session and are not `skip`.
pub open spec fn eligible(players: Seq<(u128, Player)>, sessions: Set<u128>, skip: Option<u128>) -> Seq<u128>
    decreases players.len(),
{
    if players.len() == 0 {
        Seq::empty()
    } else {
        let rest = eligible(players.drop_last(), sessions, skip);
        let id = players.last().0;
        if sessions.contains(id) && skip != Some(id) {
            rest.push(id)
        } else {
            rest
        }
    }
}

pub open spec fn route_of(t: MessageTypes) -> Route {
    match t {
        MessageTypes::Game(GameTypes::StartGame) => Route::StartGame,
        MessageTypes::Game(GameTypes::EndTurn) => Route::EndTurn,
        MessageTypes::Game(GameTypes::Guess) => Route::Guess,
        _ => Route::Relay,
    }
}

impl ServerView {
    pub open spec fn wf(self) -> bool {
        forall|k: u128| #[trigger] self.rooms.contains_key(k) ==> self.rooms[k].wf() && self.rooms[k].room_id == k
    }

    /// Who receives an envelope sent to `room`, leaving out `skip`.
    pub open spec fn recipients(self, room: u128, skip: Option<u128>) -> Seq<u128> {
        if self.rooms.contains_key(room) {
            eligible(self.rooms[room].players, self.sessions, skip)
        } else {
            Seq::empty()
        }
    }

    pub open spec fn with_room(self, id: u128, room: RoomView) -> ServerView {
        ServerView { rooms: self.rooms.insert(id, room), ..self }
    }

    /// Whether `next` is this state after `user` joins `room_id` as
    /// `username`, with `p` the player reported: an unknown room is created
    /// with the user as owner; a known player is reactivated and otherwise
    /// unchanged; a new one enters with no points.
    pub open spec fn joined_as(self, next: ServerView, user: u128, room_id: u128, username: String, p: Player) -> bool {
        &&& next.sessions == self.sessions
        &&& next.rooms.contains_key(room_id)
        &&& next.rooms.remove(room_id) == self.rooms.remove(room_id)
        &&& if self.rooms.contains_key(room_id) {
            let r = self.rooms[room_id];
            if has_id(r.players, user) {
                let i = slot_of(r.players, user);
                &&& p == (Player { active: true, ..r.players[i].1 })
                &&& next.rooms[room_id] == (RoomView { players: r.players.update(i, (user, p)), ..r })
            } else {
                &&& p == (Player { username, score: 0, prev_score: 0, active: true })
                &&& next.rooms[room_id] == (RoomView { players: with_player(r.players, user, p), ..r })
            }
        } else {
            let n = next.rooms[room_id];
            &&& p == (Player { username, score: 0, prev_score: 0, active: true })
            &&& n.room_id == room_id && n.owner == user && n.status == GameStatus::WAITING
            &&& n.players == seq![(user, Player { username, score: 0, prev_score: 0, active: true })]
            &&& n.state.is_default_except_time()
        }
    }
    /// This state after `user` leaves `room_id`: nothing happens without a
    /// live session; otherwise the session goes, and the player is marked
    /// inactive while another player of the room is active, or else the
    /// room is removed.
    pub open spec fn after_disconnect(self, user: u128, room_id: u128) -> ServerView {
        if !self.sessions.contains(user) {
            self
        } else {
            let s1 = ServerView { sessions: self.sessions.remove(user), ..self };
            if self.rooms.contains_key(room_id) {
                let r = self.rooms[room_id];
                if others_active(r.players, user) {
                    if has_id(r.players, user) {
                        let i = slot_of(r.players, user);
                        s1.with_room(
                            room_id,
                            RoomView {
                                players: r.players.update(i, (user, Player { active: false, ..r.players[i].1 })),
                                ..r
                            },
                        )
                    } else {
                        s1
                    }
                } else {
                    ServerView { rooms: s1.rooms.remove(room_id), ..s1 }
                }
            } else {
                s1
            }
        }
    }

    /// `next` and `r` are what `start_game` makes of this state: in a known
    /// room, the owner's request starts the game and announces the new turn
    /// to the whole room; anything else changes nothing and sends nothing.
    pub open spec fn start_game_post(self, next: ServerView, msg: StartGameMsg, now: u128, r: Option<Broadcast>) -> bool {
        let rid = msg.room_id;
        if self.rooms.contains_key(rid) && msg.user_id == self.rooms[rid].owner {
            &&& next == self.with_room(rid, next.rooms[rid])
            &&& self.rooms[rid].started_as(next.rooms[rid], msg.user_id, msg.state, now)
            &&& r matches Some(b) && announces(b, GameTypes::NewTurn, next.rooms[rid], next.recipients(rid, None))
        } else {
            next == self && r is None
        }
    }

    /// `next` and `r` are what `validate_guess` makes of this state: in a
    /// known room the guess is scored and its result goes to the whole room.
    pub open spec fn guess_post(self, next: ServerView, data: UserGuessMsg, room_id: u128, now: u128, r: Option<Broadcast>) -> bool {
        if self.rooms.contains_key(room_id) {
            let room = self.rooms[room_id];
            &&& next == self.with_room(room_id, room.after_guess(data.user_id, data.content@, now))
            &&& r matches Some(b) && b.msg_type == MessageTypes::Game(GameTypes::GuessResult)
                && b.event == Outgoing::Guess(GuessResultMsg {
                    user_id: data.user_id,
                    username: data.username,
                    content: data.content,
                    correct: room.state.correct_word@ == trimmed_of(data.content@),
                })
                && b.recipients@ == next.recipients(room_id, None)
        } else {
            next == self && r is None
        }
    }

    /// `next` and `r` are what `end_turn` makes of this state: in a known
    /// room the turn moves on and the new turn is announced, or the game
    /// ends, which is announced before the room is removed.
    pub open spec fn end_turn_post(self, next: ServerView, data: EndGameMsg, room_id: u128, r: Option<Broadcast>) -> bool {
        if self.rooms.contains_key(room_id) {
            let (room, ended) = self.rooms[room_id].after_end_turn(data.user_id);
            if ended {
                &&& next == (ServerView { rooms: self.rooms.remove(room_id), ..self })
                &&& r matches Some(b) && announces(b, GameTypes::EndGame, room, self.with_room(room_id, room).recipients(room_id, None))
            } else {
                &&& next == self.with_room(room_id, room)
                &&& r matches Some(b) && announces(b, GameTypes::NewTurn, room, next.recipients(room_id, None))
            }
        } else {
            next == self && r is None
        }
    }
}

/// `b` carries a snapshot of `room` as an event of type `t` to `to`.
pub open spec fn announces(b: Broadcast, t: GameTypes, room: RoomView, to: Seq<u128>) -> bool {
    &&& b.msg_type == MessageTypes::Game(t)
    &&& b.event matches Outgoing::Snapshot(snap) && snap@ == room
    &&& b.recipients@ == to
}

/// What to do with an envelope of type `t`.
pub fn route(t: MessageTypes) -> (r: Route)
    ensures
        r == route_of(t),
{
    match t {
        MessageTypes::Game(GameTypes::StartGame) => Route::StartGame,
        MessageTypes::Game(GameTypes::EndTurn) => Route::EndTurn,
        MessageTypes::Game(GameTypes::Guess) => Route::Guess,
        _ => Route::Relay,
    }
}

impl Server {
    pub closed spec fn wf(&self) -> bool {
        self@.wf()
    }

    /// The identities of the room's players with a live session, in roster
    /// order, leaving out `skip`; none for an unknown room.
    pub fn recipients(&self, room: u128, skip: Option<u128>) -> (r: Vec<u128>)
        ensures
            r@ == self@.recipients(room, skip),
    {
        let mut out: Vec<u128> = Vec::new();
        match self.rooms.get(&room) {
            Some(rm) => {
                let mut i: usize = 0;
                while i < rm.players.len()
                    invariant
                        i <= rm.players.len(),
                        self.rooms@.contains_key(room) && self.rooms@[room] == *rm,
                        out@ == eligible(rm.players@.subrange(0, i as int), self.sessions@, skip),
                    decreases rm.players.len() - i,
                {
                    let id = rm.players[i].0;
                    let ghost pre = rm.players@.subrange(0, i as int);
                    let skipped = match skip {
                        Some(s) => s == id,
                        None => false,
                    };
                    if !skipped && self.sessions.contains(&id) {
                        out.push(id);
                    }
                    i = i + 1;
                    assert(rm.players@.subrange(0, i as int).drop_last() =~= pre);
                }
                assert(rm.players@.subrange(0, i as int) =~= rm.players@);
            }
            None => {}
        }
        out
    }

    /// Addresses an envelope to the room's players with a live session,
    /// leaving out `skip_id`.
    pub fn send_message(&self, room: u128, msg_type: MessageTypes, event: Outgoing, skip_id: Option<u128>) -> (r: Broadcast)
        ensures
            r.msg_type == msg_type,
            r.event == event,
            r.recipients@ == self@.recipients(room, skip_id),
    {
        Broadcast { msg_type, event, recipients: self.recipients(room, skip_id) }
    }

    /// Addresses an envelope to one user, if that user has a live session.
    pub fn send_user_message(&self, msg_type: MessageTypes, content: String, user_id: u128) -> (r: Broadcast)
        ensures
            r.msg_type == msg_type,
            r.event == Outgoing::Raw(content),
            r.recipients@ == (if self@.sessions.contains(user_id) { seq![user_id] } else { Seq::empty() }),
    {
        let mut recipients: Vec<u128> = Vec::new();
        if self.sessions.contains(&user_id) {
            recipients.push(user_id);
        }
        Broadcast { msg_type, event: Outgoing::Raw(content), recipients }
    }

    /// Puts `user_id` in room `room_id` and returns the player reported to
    /// the room (see `joined_as`).
    pub fn join_room(&mut self, user_id: u128, room_id: u128, username: String) -> (p: Player)
        requires
            old(self).wf(),
        ensures
            final(self).wf(),
            old(self)@.joined_as(final(self)@, user_id, room_id, username, p),
    {
        let ghost s0 = self@;
        let mut new_player = Player::default(String::new());
        let removed = self.rooms.remove(&room_id);
        match removed {
            Some(mut room) => {
                assert(s0.rooms.contains_key(room_id) && s0.rooms[room_id] == room@);
                match room.position(user_id) {
                    Some(i) => {
                        room.set_active(i, true);
                        new_player = room.players[i].1.copy();
                    }
                    None => {
                        new_player.username = username;
                        room.add_player(user_id, new_player.copy());
                    }
                }
                self.rooms.insert(room_id, room);
            }
            None => {
                assert(!s0.rooms.contains_key(room_id));
                new_player.username = username.clone();
                self.rooms.insert(room_id, Room::new(user_id, room_id, username));
            }
        }
        assert(self@.rooms =~= s0.rooms.insert(room_id, self@.rooms[room_id]));
        assert(self@.rooms.remove(room_id) =~= s0.rooms.remove(room_id));
        new_player
    }
    /// A dispatcher with no sessions and one room, the lobby, which waits
    /// with no players and an owner drawn at random.
    pub fn new() -> (r: Server)
        ensures
            r.wf(),
            r@.sessions == Set::<u128>::empty(),
            r@.rooms.dom() == set![LOBBY_ROOM],
            r@.rooms[LOBBY_ROOM].room_id == LOBBY_ROOM,
            r@.rooms[LOBBY_ROOM].status == GameStatus::WAITING,
            r@.rooms[LOBBY_ROOM].players == Seq::<(u128, Player)>::empty(),
            r@.rooms[LOBBY_ROOM].state.is_default_except_time(),
    {
        let lobby = Room {
            room_id: LOBBY_ROOM,
            status: GameStatus::WAITING,
            players: Vec::new(),
            owner: fresh_id(),
            state: GameState::default(),
        };
        let mut rooms: HashMap<u128, Room> = HashMap::new();
        rooms.insert(LOBBY_ROOM, lobby);
        let r = Server { sessions: HashSet::new(), rooms };
        assert(r@.rooms.dom() =~= set![LOBBY_ROOM]);
        r
    }

    /// The room `room_id`, if it exists.
    pub fn get_room_details(&self, room_id: u128) -> (r: Option<&Room>)
        ensures
            r is Some <==> self@.rooms.contains_key(room_id),
            r matches Some(room) ==> room@ == self@.rooms[room_id],
    {
        self.rooms.get(&room_id)
    }

    /// The player `user_id` of room `room_id`, if both exist.
    pub fn get_player_details(&self, user_id: u128, room_id: u128) -> (r: Option<&Player>)
        requires
            self.wf(),
        ensures
            r is Some <==> self@.rooms.contains_key(room_id) && has_id(self@.rooms[room_id].players, user_id),
            r matches Some(p) ==> *p == self@.rooms[room_id].players[slot_of(self@.rooms[room_id].players, user_id)].1,
    {
        match self.rooms.get(&room_id) {
            Some(room) => {
                assert(self@.rooms.contains_key(room_id));
                room.get_player(user_id)
            }
            None => None,
        }
    }

    /// A snapshot of the room a lookup asks for.
    pub fn handle_room_details(&self, msg: RoomDetails) -> (r: Option<Room>)
        ensures
            r is Some <==> self@.rooms.contains_key(msg.0),
            r matches Some(room) ==> room@ == self@.rooms[msg.0],
    {
        match self.get_room_details(msg.0) {
            Some(room) => Some(room.snapshot()),
            None => None,
        }
    }

    /// The player a lookup asks for, with its identity.
    pub fn handle_player_details(&self, msg: GetPlayerDetails) -> (r: Option<PlayerDetails>)
        requires
            self.wf(),
        ensures
            r is Some <==> self@.rooms.contains_key(msg.room_id) && has_id(self@.rooms[msg.room_id].players, msg.user_id),
            r matches Some(d) ==> d.user_id == msg.user_id
                && d.player == self@.rooms[msg.room_id].players[slot_of(self@.rooms[msg.room_id].players, msg.user_id)].1,
    {
        match self.get_player_details(msg.user_id, msg.room_id) {
            Some(p) => Some(PlayerDetails { user_id: msg.user_id, player: p.copy() }),
            None => None,
        }
    }

    /// Starts the game of `msg.room_id` if the owner asks (see `start_game_post`).
    pub fn start_game(&mut self, msg: StartGameMsg, now: u128) -> (r: Option<Broadcast>)
        requires
            old(self).wf(),
        ensures
            final(self).wf(),
            old(self)@.start_game_post(final(self)@, msg, now, r),
    {
        let ghost s0 = self@;
        let ghost before = *self;
        let rid = msg.room_id;
        match self.rooms.remove(&rid) {
            Some(mut room) => {
                assert(s0.rooms.contains_key(rid) && s0.rooms[rid] == room@);
                let data = room.start_game(msg, now);
                self.rooms.insert(rid, room);
                proof {
                    lemma_restore(&before, self, rid, room);
                }
                match data {
                    Some(snap) => Some(self.send_message(rid, MessageTypes::Game(GameTypes::NewTurn), Outgoing::Snapshot(snap), None)),
                    None => {
                        assert(self@.rooms =~= s0.rooms);
                        None
                    }
                }
            }
            None => {
                assert(self.rooms@ =~= before.rooms@);
                assert(self@ =~= s0);
                None
            }
        }
    }

    /// Scores a guess in room `room_id` (see `guess_post`).
    pub fn validate_guess(&mut self, data: UserGuessMsg, room_id: u128, now: u128) -> (r: Option<Broadcast>)
        requires
            old(self).wf(),
        ensures
            final(self).wf(),
            old(self)@.guess_post(final(self)@, data, room_id, now, r),
    {
        let ghost s0 = self@;
        let ghost before = *self;
        match self.rooms.remove(&room_id) {
            Some(mut room) => {
                assert(s0.rooms.contains_key(room_id) && s0.rooms[room_id] == room@);
                let content = room.validate_guess(data, now);
                self.rooms.insert(room_id, room);
                proof {
                    lemma_restore(&before, self, room_id, room);
                }
                match content {
                    Some(c) => Some(self.send_message(room_id, MessageTypes::Game(GameTypes::GuessResult), Outgoing::Guess(c), None)),
                    None => None,
                }
            }
            None => {
                assert(self.rooms@ =~= before.rooms@);
                assert(self@ =~= s0);
                None
            }
        }
    }

    /// Ends the turn in room `room_id` (see `end_turn_post`).
    pub fn end_turn(&mut self, data: EndGameMsg, room_id: u128) -> (r: Option<Broadcast>)
        requires
            old(self).wf(),
        ensures
            final(self).wf(),
            old(self)@.end_turn_post(final(self)@, data, room_id, r),
    {
        let ghost s0 = self@;
        let ghost before = *self;
        match self.rooms.remove(&room_id) {
            Some(mut room) => {
                assert(s0.rooms.contains_key(room_id) && s0.rooms[room_id] == room@);
                let (content, game_ended) = room.end_turn(data);
                self.rooms.insert(room_id, room);
                proof {
                    lemma_restore(&before, self, room_id, room);
                }
                match content {
                    Some(snap) => {
                        if game_ended {
                            let b = self.send_message(room_id, MessageTypes::Game(GameTypes::EndGame), Outgoing::Snapshot(snap), None);
                            let ghost mid = self@;
                            self.rooms.remove(&room_id);
                            assert(self@.rooms =~= mid.rooms.remove(room_id));
                            assert(self@.rooms =~= s0.rooms.remove(room_id));
                            Some(b)
                        } else {
                            Some(self.send_message(room_id, MessageTypes::Game(GameTypes::NewTurn), Outgoing::Snapshot(snap), None))
                        }
                    }
                    None => None,
                }
            }
            None => {
                assert(self.rooms@ =~= before.rooms@);
                assert(self@ =~= s0);
                None
            }
        }
    }
    /// Registers the session of `msg.user_id`, puts the user in the room,
    /// and tells the rest of the room who joined.
    pub fn handle_connect(&mut self, msg: Connect) -> (r: Broadcast)
        requires
            old(self).wf(),
        ensures
            final(self).wf(),
            r.msg_type == MessageTypes::Game(GameTypes::PlayerJoined),
            r.event matches Outgoing::Movement(m) && m.enter && m.user_id == msg.user_id
                && (ServerView { sessions: old(self)@.sessions.insert(msg.user_id), ..old(self)@ }).joined_as(
                    final(self)@, msg.user_id, msg.room_id, msg.username, m.player),
            r.recipients@ == final(self)@.recipients(msg.room_id, Some(msg.user_id)),
    {
        self.sessions.insert(msg.user_id);
        let player = self.join_room(msg.user_id, msg.room_id, msg.username);
        let info = PlayerMovement { enter: true, user_id: msg.user_id, player };
        self.send_message(msg.room_id, MessageTypes::Game(GameTypes::PlayerJoined), Outgoing::Movement(info), Some(msg.user_id))
    }

    /// Ends the session of `msg.user_id` (see `after_disconnect`) and tells
    /// the rest of the room who left; nothing when there was no session.
    pub fn handle_disconnect(&mut self, msg: Disconnect) -> (r: Option<Broadcast>)
        requires
            old(self).wf(),
        ensures
            final(self).wf(),
            final(self)@ == old(self)@.after_disconnect(msg.user_id, msg.room_id),
            r is None <==> !old(self)@.sessions.contains(msg.user_id),
            r matches Some(b) ==> (b.msg_type == MessageTypes::Game(GameTypes::PlayerLeft)
                && b.recipients@ == final(self)@.recipients(msg.room_id, Some(msg.user_id))
                && (b.event matches Outgoing::Movement(m) && !m.enter && m.user_id == msg.user_id
                && m.player.username@ == Seq::<char>::empty() && m.player.score == 0
                && m.player.prev_score == 0 && m.player.active)),
    {
        let ghost s0 = self@;
        let user = msg.user_id;
        let rid = msg.room_id;
        if self.sessions.remove(&user) {
            let ghost before = *self;
            assert(self@ == (ServerView { sessions: s0.sessions.remove(user), ..s0 }));
            match self.rooms.remove(&rid) {
                Some(mut room) => {
                    assert(before@.rooms.contains_key(rid) && before@.rooms[rid] == room@);
                    if room.has_other_active(user) {
                        match room.position(user) {
                            Some(i) => room.set_active(i, false),
                            None => {}
                        }
                        self.rooms.insert(rid, room);
                        proof {
                            lemma_restore(&before, self, rid, room);
                            if !has_id(before@.rooms[rid].players, user) {
                                assert(self@.rooms =~= before@.rooms);
                            }
                        }
                    } else {
                        assert(self@.rooms =~= before@.rooms.remove(rid));
                    }
                }
                None => {
                    assert(self@.rooms =~= before@.rooms);
                }
            }
            let info = PlayerMovement { enter: false, user_id: user, player: Player::default(String::new()) };
            Some(self.send_message(rid, MessageTypes::Game(GameTypes::PlayerLeft), Outgoing::Movement(info), Some(user)))
        } else {
            assert(self@.sessions =~= s0.sessions);
            assert(self@.rooms =~= s0.rooms);
            None
        }
    }

    /// Acts on an envelope from `user_id` in room `room_id`: starts the
    /// game, ends the turn or scores a guess when its type asks for it and
    /// its payload was decoded, drops it silently when that payload was not,
    /// and relays any other envelope unchanged to the rest of the room. The
    /// requester, the guesser and the room are always the sender's own,
    /// whatever identities the payload names.
    pub fn handle_user_message(
        &mut self,
        user_id: u128,
        room_id: u128,
        data: ClientServerMessage,
        payload: Payload,
        now: u128,
    ) -> (r: Option<Broadcast>)
        requires
            old(self).wf(),
        ensures
            final(self).wf(),
            match (route_of(data.msg_type), payload) {
                (Route::StartGame, Payload::StartGame(m)) => old(self)@.start_game_post(
                    final(self)@, StartGameMsg { user_id, room_id, state: m.state }, now, r),
                (Route::EndTurn, Payload::EndTurn(_)) => old(self)@.end_turn_post(
                    final(self)@, EndGameMsg { user_id, room_id }, room_id, r),
                (Route::Guess, Payload::Guess(m)) => old(self)@.guess_post(
                    final(self)@, UserGuessMsg { user_id, username: m.username, content: m.content }, room_id, now, r),
                (Route::Relay, _) => final(self)@ == old(self)@ && (r matches Some(b)
                    && b.msg_type == data.msg_type && b.event == Outgoing::Raw(data.content)
                    && b.recipients@ == old(self)@.recipients(room_id, Some(user_id))),
                _ => final(self)@ == old(self)@ && r is None,
            },
    {
        match route(data.msg_type) {
            Route::StartGame => match payload {
                Payload::StartGame(m) => self.start_game(StartGameMsg { user_id, room_id, state: m.state }, now),
                _ => None,
            },
            Route::EndTurn => match payload {
                Payload::EndTurn(_) => self.end_turn(EndGameMsg { user_id, room_id }, room_id),
                _ => None,
            },
            Route::Guess => match payload {
                Payload::Guess(m) => self.validate_guess(
                    UserGuessMsg { user_id, username: m.username, content: m.content },
                    room_id,
                    now,
                ),
                _ => None,
            },
            Route::Relay => Some(self.send_message(room_id, data.msg_type, Outgoing::Raw(data.content), Some(user_id))),
        }
    }
}

/// Putting a room back under its id, changed in ways that keep its roster
/// ordered and its id, gives the old state with that room replaced.
proof fn lemma_restore(before: &Server, after: &Server, id: u128, room: Room)
    requires
        before.wf(),
        after.sessions@ == before.sessions@,
        after.rooms@ == before.rooms@.remove(id).insert(id, room),
        room.wf(),
        room.room_id == id,
    ensures
        after@ == before@.with_room(id, room@),
        after.wf(),
{
    assert(after@.rooms =~= before@.rooms.insert(id, room@));
}

/// Ending a turn keeps, in every room that still exists, the drawer's index
/// inside the roster, provided it was inside before.
pub proof fn end_turn_keeps_drawers_in_rosters(s: ServerView, next: ServerView, data: EndGameMsg, room_id: u128, r: Option<Broadcast>)
    requires
        forall|k: u128| #[trigger] s.rooms.contains_key(k)
            ==> s.rooms[k].state.currently_drawing < s.rooms[k].players.len(),
        s.end_turn_post(next, data, room_id, r),
    ensures
        forall|k: u128| #[trigger] next.rooms.contains_key(k)
            ==> next.rooms[k].state.currently_drawing < next.rooms[k].players.len(),
{
    if s.rooms.contains_key(room_id) {
        end_turn_keeps_drawer_in_roster(s.rooms[room_id], data.user_id);
    }
}

/// Joining a room again under an identity already in it adds no entry: the
/// roster keeps its identities in place, and the player comes back active
/// with its name and scores.
pub proof fn rejoin_reactivates(s: ServerView, next: ServerView, user: u128, room_id: u128, username: String, p: Player)
    requires
        s.wf(),
        s.rooms.contains_key(room_id),
        has_id(s.rooms[room_id].players, user),
        s.joined_as(next, user, room_id, username, p),
    ensures
        next.rooms[room_id].players.len() == s.rooms[room_id].players.len(),
        forall|i: int| 0 <= i < s.rooms[room_id].players.len()
            ==> #[trigger] next.rooms[room_id].players[i].0 == s.rooms[room_id].players[i].0,
        next.rooms[room_id].players[slot_of(s.rooms[room_id].players, user)] == (user, p),
        p.active,
        p.username == s.rooms[room_id].players[slot_of(s.rooms[room_id].players, user)].1.username,
        p.score == s.rooms[room_id].players[slot_of(s.rooms[room_id].players, user)].1.score,
        p.prev_score == s.rooms[room_id].players[slot_of(s.rooms[room_id].players, user)].1.prev_score,
{
    let ps = s.rooms[room_id].players;
    assert(ps[slot_of(ps, user)].0 == user);
}

/// A disconnect never removes a room in which a player other than the one
/// leaving is active, nor any other room; it removes the room when the one
/// leaving (with a live session) was its last active player, and otherwise
/// marks that player inactive; a user without a session changes nothing;
/// and once a room is gone, a disconnect finds nothing more to remove.
pub proof fn disconnect_removes_only_idle_rooms(s: ServerView, user: u128, room_id: u128)
    requires
        s.wf(),
    ensures
        forall|k: u128| #[trigger] s.rooms.contains_key(k) && (k != room_id || others_active(s.rooms[k].players, user))
            ==> s.after_disconnect(user, room_id).rooms.contains_key(k),
        forall|k: u128| k != room_id && #[trigger] s.rooms.contains_key(k)
            ==> s.after_disconnect(user, room_id).rooms[k] == s.rooms[k],
        s.sessions.contains(user) && s.rooms.contains_key(room_id) && !others_active(s.rooms[room_id].players, user)
            ==> !s.after_disconnect(user, room_id).rooms.contains_key(room_id),
        s.sessions.contains(user) && s.rooms.contains_key(room_id) && others_active(s.rooms[room_id].players, user)
            && has_id(s.rooms[room_id].players, user) ==> s.after_disconnect(user, room_id).rooms[room_id] == (RoomView {
                players: s.rooms[room_id].players.update(
                    slot_of(s.rooms[room_id].players, user),
                    (user, Player { active: false, ..s.rooms[room_id].players[slot_of(s.rooms[room_id].players, user)].1 }),
                ),
                ..s.rooms[room_id]
            }),
        !s.after_disconnect(user, room_id).sessions.contains(user),
        !s.sessions.contains(user) ==> s.after_disconnect(user, room_id) == s,
        !s.rooms.contains_key(room_id) ==> s.after_disconnect(user, room_id).rooms == s.rooms,
{
}

/// A request to start the game from anyone but the room's owner changes
/// nothing and sends nothing.
pub proof fn non_owner_cannot_start(s: ServerView, next: ServerView, msg: StartGameMsg, now: u128, r: Option<Broadcast>)
    requires
        s.rooms.contains_key(msg.room_id) ==> msg.user_id != s.rooms[msg.room_id].owner,
        s.start_game_post(next, msg, now, r),
    ensures
        next == s,
        r is None,
{
}

/// Joining never removes a room.
pub proof fn join_keeps_rooms(s: ServerView, next: ServerView, user: u128, room_id: u128, username: String, p: Player)
    requires
        s.joined_as(next, user, room_id, username, p),
    ensures
        forall|k: u128| s.rooms.contains_key(k) ==> #[trigger] next.rooms.contains_key(k),
{
    assert forall|k: u128| s.rooms.contains_key(k) implies #[trigger] next.rooms.contains_key(k) by {
        if k != room_id {
            assert(s.rooms.remove(room_id).contains_key(k));
        }
    }
}

/// Starting a game or scoring a guess never removes a room.
pub proof fn start_and_guess_keep_rooms(
    s: ServerView,
    started: ServerView,
    msg: StartGameMsg,
    guessed: ServerView,
    data: UserGuessMsg,
    room_id: u128,
    now: u128,
    r1: Option<Broadcast>,
    r2: Option<Broadcast>,
)
    requires
        s.start_game_post(started, msg, now, r1),
        s.guess_post(guessed, data, room_id, now, r2),
    ensures
        s.rooms.dom().subset_of(started.rooms.dom()),
        s.rooms.dom().subset_of(guessed.rooms.dom()),
{
}

/// An envelope sent to a room reaches exactly its players that have a live
/// session, leaving out the one excluded: so a joining or leaving user never
/// gets its own event, and every other connected player of the room does.
pub proof fn broadcast_reaches_room_sessions(s: ServerView, room: u128, skip: Option<u128>, x: u128)
    requires
        s.rooms.contains_key(room),
    ensures
        s.recipients(room, skip).contains(x)
            <==> has_id(s.rooms[room].players, x) && s.sessions.contains(x) && skip != Some(x),
{
    lemma_eligible(s.rooms[room].players, s.sessions, skip, x);
}

proof fn lemma_eligible(players: Seq<(u128, Player)>, sessions: Set<u128>, skip: Option<u128>, x: u128)
    ensures
        eligible(players, sessions, skip).contains(x) <==> has_id(players, x) && sessions.contains(x) && skip != Some(x),
    decreases players.len(),
{
    if players.len() > 0 {
        let d = players.drop_last();
        let n = players.len() - 1;
        lemma_eligible(d, sessions, skip, x);
        let rest = eligible(d, sessions, skip);
        if has_id(d, x) {
            let i = choose|i: int| 0 <= i < d.len() && d[i].0 == x;
            assert(players[i].0 == x);
        }
        if has_id(players, x) && players[n].0 != x {
            let i = choose|i: int| 0 <= i < players.len() && players[i].0 == x;
            assert(d[i].0 == x);
        }
        let id = players[n].0;
        if sessions.contains(id) && skip != Some(id) {
            assert(rest.push(id)[rest.len() as int] == id);
            if rest.push(id).contains(x) && x != id {
                let i = choose|i: int| 0 <= i < rest.push(id).len() && rest.push(id)[i] == x;
                assert(rest[i] == x);
            }
            if rest.contains(x) {
                let i = choose|i: int| 0 <= i < rest.len() && rest[i] == x;
                assert(rest.push(id)[i] == x);
            }
        }
    }
}

/// Joining a room a second time under the same identity, whatever the
/// name, changes nothing and reports the same player as the first join.
pub proof fn joining_again_changes_nothing(
    s0: ServerView,
    s1: ServerView,
    s2: ServerView,
    user: u128,
    room_id: u128,
    name1: String,
    name2: String,
    p1: Player,
    p2: Player,
)
    requires
        s0.wf(),
        s1.wf(),
        s0.joined_as(s1, user, room_id, name1, p1),
        s1.joined_as(s2, user, room_id, name2, p2),
    ensures
        s2 == s1,
        p2 == p1,
{
    let ps1 = s1.rooms[room_id].players;
    let mut k: int = 0;
    if s0.rooms.contains_key(room_id) {
        let ps0 = s0.rooms[room_id].players;
        if has_id(ps0, user) {
            k = slot_of(ps0, user);
        } else {
            lemma_insertion_point_exists(ps0, user);
            k = insertion_point(ps0, user);
        }
    }
    assert(0 <= k < ps1.len() && ps1[k] == (user, p1));
    lemma_slot_at(ps1, user, k);
    assert(p2 == p1);
    assert(ps1.update(k, (user, p2)) =~= ps1);
    assert(s2.rooms =~= s1.rooms) by {
        assert forall|j: u128| #[trigger] s2.rooms.contains_key(j) <==> s1.rooms.contains_key(j) by {
            if j != room_id {
                assert(s2.rooms.remove(room_id).contains_key(j) == s1.rooms.remove(room_id).contains_key(j));
            }
        }
        assert forall|j: u128| #[trigger] s2.rooms.contains_key(j) implies s2.rooms[j] == s1.rooms[j] by {
            if j != room_id {
                assert(s2.rooms.remove(room_id)[j] == s1.rooms.remove(room_id)[j]);
            }
        }
    }
}

/// A player who leaves while another player of the room is active stays in
/// the roster, inactive with its scores, and its session is gone; when it
/// comes back under the same identity it is active again with the same
/// scores, in the same place, and no entry is added.
pub proof fn leave_and_return(s: ServerView, user: u128, room_id: u128, name: String, p: Player, back: ServerView)
    requires
        s.wf(),
        s.sessions.contains(user),
        s.rooms.contains_key(room_id),
        has_id(s.rooms[room_id].players, user),
        others_active(s.rooms[room_id].players, user),
        (ServerView { sessions: s.after_disconnect(user, room_id).sessions.insert(user), ..s.after_disconnect(user, room_id) })
            .joined_as(back, user, room_id, name, p),
    ensures
        s.after_disconnect(user, room_id).rooms.contains_key(room_id),
        !s.after_disconnect(user, room_id).sessions.contains(user),
        s.after_disconnect(user, room_id).rooms[room_id].players[slot_of(s.rooms[room_id].players, user)]
            == (user, Player { active: false, ..s.rooms[room_id].players[slot_of(s.rooms[room_id].players, user)].1 }),
        back.sessions.contains(user),
        back.rooms[room_id].players.len() == s.rooms[room_id].players.len(),
        back.rooms[room_id].players[slot_of(s.rooms[room_id].players, user)]
            == (user, Player { active: true, ..s.rooms[room_id].players[slot_of(s.rooms[room_id].players, user)].1 }),
{
    let ps = s.rooms[room_id].players;
    let i = slot_of(ps, user);
    assert(0 <= i < ps.len() && ps[i].0 == user);
    let left = s.after_disconnect(user, room_id);
    let lp = left.rooms[room_id].players;
    assert(ids_sorted(lp)) by {
        assert forall|a: int, b: int| 0 <= a < b < lp.len() implies lp[a].0 < lp[b].0 by {
            assert(ps[a].0 < ps[b].0);
        }
    }
    lemma_slot_at(lp, user, i);
    assert(has_id(lp, user)) by {
        assert(lp[i].0 == user);
    }
}

} // verus!

use vstd::prelude::*;

use crate::messages::{EndGameMsg, GuessResultMsg, StartGameMsg, UserGuessMsg};

verus! {

/// Seconds a drawer's turn is worth when scoring a correct guess.
pub const ROUND_SECONDS: u128 = 60;

/// Points a guess made at the very start of a turn earns.
pub const MAX_POINTS: u128 = 100;

#[derive(Clone, Copy, Debug, PartialEq, Eq, Structural)]
pub enum GameStatus {
    WAITING,
    STARTED,
    OVER,
}

#[derive(Clone, Debug)]
pub struct GameState {
    pub total_rounds: usize,
    pub current_round: usize,
    pub currently_drawing: usize,
    pub title: String,
    pub correct_word: String,
    pub round_start_time: u128,
}

#[derive(Clone, Debug)]
pub struct Player {
    pub username: String,
    pub score: usize,
    pub prev_score: usize,
    pub active: bool,
}

/// A room: its players are kept in increasing order of identity, which is
/// also the order in which they take turns drawing.
#[derive(Clone, Debug)]
pub struct Room {
    pub room_id: u128,
    pub status: GameStatus,
    pub players: Vec<(u128, Player)>,
    pub owner: u128,
    pub state: GameState,
}

pub struct RoomView {
    pub room_id: u128,
    pub status: GameStatus,
    pub players: Seq<(u128, Player)>,
    pub owner: u128,
    pub state: GameState,
}

impl View for Room {
    type V = RoomView;

    open spec fn view(&self) -> RoomView {
        RoomView {
            room_id: self.room_id,
            status: self.status,
            players: self.players@,
            owner: self.owner,
            state: self.state,
        }
    }
}

/// Identities strictly increase along the roster, so each appears once.
pub open spec fn ids_sorted(players: Seq<(u128, Player)>) -> bool {
    forall|i: int, j: int| 0 <= i < j < players.len() ==> players[i].0 < players[j].0
}

pub open spec fn has_id(players: Seq<(u128, Player)>, id: u128) -> bool {
    exists|i: int| 0 <= i < players.len() && players[i].0 == id
}

/// Whether some player other than `user` is active in the roster.
pub open spec fn others_active(players: Seq<(u128, Player)>, user: u128) -> bool {
    exists|i: int| 0 <= i < players.len() && players[i].0 != user && #[trigger] players[i].1.active
}

/// Where `id` sits in the roster, if it does.
pub open spec fn slot_of(players: Seq<(u128, Player)>, id: u128) -> int {
    choose|i: int| 0 <= i < players.len() && players[i].0 == id
}

/// `k` is where `id` goes so that the roster stays in order.
pub open spec fn is_insertion_point(players: Seq<(u128, Player)>, id: u128, k: int) -> bool {
    &&& 0 <= k <= players.len()
    &&& forall|j: int| 0 <= j < k ==> players[j].0 < id
    &&& forall|j: int| k <= j < players.len() ==> players[j].0 > id
}

pub open spec fn insertion_point(players: Seq<(u128, Player)>, id: u128) -> int {
    choose|k: int| is_insertion_point(players, id, k)
}

/// The roster with a new player placed in order.
pub open spec fn with_player(players: Seq<(u128, Player)>, id: u128, p: Player) -> Seq<(u128, Player)> {
    players.insert(insertion_point(players, id), (id, p))
}

proof fn insertion_point_unique(players: Seq<(u128, Player)>, id: u128, k: int)
    requires
        is_insertion_point(players, id, k),
    ensures
        insertion_point(players, id) == k,
{
    let c = insertion_point(players, id);
    assert(is_insertion_point(players, id, c));
    if c < k {
        assert(players[c].0 > id);
    } else if c > k {
        assert(players[k].0 > id);
    }
}

/// In an ordered roster, the slot of an identity is the one place it sits.
pub proof fn lemma_slot_at(players: Seq<(u128, Player)>, id: u128, i: int)
    requires
        ids_sorted(players),
        0 <= i < players.len(),
        players[i].0 == id,
    ensures
        slot_of(players, id) == i,
{
    assert(0 <= i < players.len() && players[i].0 == id);
    let j = slot_of(players, id);
    if j < i {
        assert(players[j].0 < players[i].0);
    } else if j > i {
        assert(players[i].0 < players[j].0);
    }
}

/// An ordered roster without `id` has a place where `id` goes.
pub proof fn lemma_insertion_point_exists(players: Seq<(u128, Player)>, id: u128)
    requires
        ids_sorted(players),
        !has_id(players, id),
    ensures
        is_insertion_point(players, id, insertion_point(players, id)),
    decreases players.len(),
{
    if players.len() == 0 {
        assert(is_insertion_point(players, id, 0));
    } else {
        let d = players.drop_last();
        let n = players.len() - 1;
        assert forall|j: int| 0 <= j < d.len() implies d[j].0 != id by {
            assert(players[j].0 == d[j].0);
        }
        lemma_insertion_point_exists(d, id);
        let k = insertion_point(d, id);
        assert(players[n].0 != id);
        if players[n].0 < id {
            assert forall|j: int| 0 <= j < n implies players[j].0 < id by {
                assert(players[j].0 < players[n].0);
            }
            assert(is_insertion_point(players, id, n + 1));
        } else {
            assert forall|j: int| 0 <= j < k implies players[j].0 < id by {
                assert(players[j] == d[j]);
            }
            assert forall|j: int| k <= j < players.len() implies players[j].0 > id by {
                if j < n {
                    assert(players[j] == d[j]);
                }
            }
            assert(is_insertion_point(players, id, k));
        }
    }
}

/// Points for a correct guess made `now` in a turn that began at `start`
/// (both in milliseconds): `(60 - s) * 100 / 60` for `s` whole elapsed
/// seconds, and nothing once the turn's sixty seconds are spent.
pub open spec fn award_spec(start: u128, now: u128) -> int {
    let elapsed = if now >= start { (now - start) / 1000 } else { 0 };
    if elapsed >= ROUND_SECONDS {
        0
    } else {
        (ROUND_SECONDS - elapsed) * MAX_POINTS / (ROUND_SECONDS as int)
    }
}

impl RoomView {
    pub open spec fn wf(self) -> bool {
        ids_sorted(self.players)
    }

    /// The identity of the player whose turn it is to draw, if the index is
    /// inside the roster.
    pub open spec fn drawer(self) -> Option<u128> {
        if self.state.currently_drawing < self.players.len() {
            Some(self.players[self.state.currently_drawing as int].0)
        } else {
            None
        }
    }

    pub open spec fn with_state(self, state: GameState) -> RoomView {
        RoomView { state, ..self }
    }

    /// The room after `requester` asks to end the turn, and whether the game ended.
    pub open spec fn after_end_turn(self, requester: u128) -> (RoomView, bool) {
        let st = self.state;
        if self.drawer() != Some(requester) {
            (self, false)
        } else if st.currently_drawing + 1 < self.players.len() {
            (self.with_state(GameState { currently_drawing: (st.currently_drawing + 1) as usize, ..st }), false)
        } else if st.current_round + 1 <= st.total_rounds {
            (self.with_state(GameState { current_round: (st.current_round + 1) as usize, currently_drawing: 0, ..st }), false)
        } else {
            (self, true)
        }
    }

    /// Whether `next` is this room after `start_game` from `requester` with
    /// the proposed state at time `now`: only the owner starts the game,
    /// which adopts the proposed configuration with the placeholder word
    /// and a turn starting now.
    pub open spec fn started_as(self, next: RoomView, requester: u128, proposed: GameState, now: u128) -> bool {
        if requester == self.owner {
            &&& next.room_id == self.room_id
            &&& next.status == GameStatus::STARTED
            &&& next.players == self.players
            &&& next.owner == self.owner
            &&& next.state.total_rounds == proposed.total_rounds
            &&& next.state.current_round == proposed.current_round
            &&& next.state.currently_drawing == proposed.currently_drawing
            &&& next.state.title == proposed.title
            &&& next.state.correct_word@ == placeholder_word()
            &&& next.state.round_start_time == now
        } else {
            next == self
        }
    }

    /// The room after a guess by `user` of `guess` at time `now`.
    pub open spec fn after_guess(self, user: u128, guess: Seq<char>, now: u128) -> RoomView {
        self.after_trimmed_guess(user, trimmed_of(guess), now)
    }

    /// The room after a guess by `user` that reads `trimmed` once trimmed:
    /// one equal to the word earns the guesser the points of the elapsed
    /// time, after the old score is saved as the previous one.
    pub open spec fn after_trimmed_guess(self, user: u128, trimmed: Seq<char>, now: u128) -> RoomView {
        if self.state.correct_word@ == trimmed && has_id(self.players, user) {
            let i = slot_of(self.players, user);
            let p = self.players[i].1;
            let gained = p.score + award_spec(self.state.round_start_time, now);
            let score = if gained > usize::MAX { usize::MAX as int } else { gained };
            RoomView {
                players: self.players.update(
                    i,
                    (user, Player { prev_score: p.score, score: score as usize, ..p }),
                ),
                ..self
            }
        } else {
            self
        }
    }
}

pub open spec fn placeholder_word() -> Seq<char> {
    seq!['d', 'e', 'f', 'a', 'u', 'l', 't']
}

/// Unicode's `White_Space` property.
pub open spec fn is_white_space(c: char) -> bool {
    let n = c as u32;
    (0x09 <= n <= 0x0D) || n == 0x20 || n == 0x85 || n == 0xA0 || n == 0x1680 || (0x2000 <= n <= 0x200A)
        || n == 0x2028 || n == 0x2029 || n == 0x202F || n == 0x205F || n == 0x3000
}

pub open spec fn trim_start_of(s: Seq<char>) -> Seq<char>
    decreases s.len(),
{
    if s.len() > 0 && is_white_space(s[0]) {
        trim_start_of(s.drop_first())
    } else {
        s
    }
}

pub open spec fn trim_end_of(s: Seq<char>) -> Seq<char>
    decreases s.len(),
{
    if s.len() > 0 && is_white_space(s.last()) {
        trim_end_of(s.drop_last())
    } else {
        s
    }
}

/// A text without its leading and trailing white space.
pub open spec fn trimmed_of(s: Seq<char>) -> Seq<char> {
    trim_end_of(trim_start_of(s))
}

/// Relies on `str::trim`: drops leading and trailing white space, as
/// Unicode's `White_Space` property defines it.
#[verifier::external_body]
fn trim_text(s: &str) -> (r: String)
    ensures
        r@ == trimmed_of(s@),
{
    s.trim().to_string()
}

/// Relies on `SystemTime::now` and `duration_since(UNIX_EPOCH)`: milliseconds
/// since the Unix epoch, read from the machine's clock (0 if the clock reads
/// earlier than the epoch).
#[verifier::external_body]
fn now_millis() -> u128 {
    match std::time::SystemTime::now().duration_since(std::time::UNIX_EPOCH) {
        Ok(d) => d.as_millis(),
        Err(_) => 0,
    }
}

/// Points a correct guess earns at `now` in a turn that began at `start`;
/// never underflows, whatever the two times are.
pub fn award(start: u128, now: u128) -> (r: usize)
    ensures
        r == award_spec(start, now),
        r <= MAX_POINTS,
{
    let elapsed: u128 = if now >= start { (now - start) / 1000 } else { 0 };
    if elapsed >= ROUND_SECONDS {
        0
    } else {
        let left: u128 = ROUND_SECONDS - elapsed;
        assert(left * MAX_POINTS <= 6000) by (nonlinear_arith)
            requires left <= 60;
        let pts: u128 = left * MAX_POINTS / ROUND_SECONDS;
        assert(pts <= 100) by (nonlinear_arith)
            requires pts == left * 100 / 60, left <= 60;
        pts as usize
    }
}

impl GameState {
    pub open spec fn is_default_except_time(self) -> bool {
        &&& self.total_rounds == 3
        &&& self.current_round == 1
        &&& self.currently_drawing == 0
        &&& self.title@ == seq!['D', 'e', 'f', 'a', 'u', 'l', 't', ' ', 'r', 'o', 'o', 'm']
        &&& self.correct_word@ == placeholder_word()
    }

    /// Three rounds, the first one current, the first player drawing, and
    /// the turn starting now.
    pub fn default() -> (r: GameState)
        ensures
            r.is_default_except_time(),
    {
        let title = "Default room".to_string();
        let word = "default".to_string();
        proof {
            reveal_strlit("Default room");
            reveal_strlit("default");
            assert(title@ =~= seq!['D', 'e', 'f', 'a', 'u', 'l', 't', ' ', 'r', 'o', 'o', 'm']);
            assert(word@ =~= placeholder_word());
        }
        GameState {
            total_rounds: 3,
            current_round: 1,
            currently_drawing: 0,
            title,
            correct_word: word,
            round_start_time: now_millis(),
        }
    }

    pub fn copy(&self) -> (r: GameState)
        ensures
            r == *self,
    {
        GameState {
            total_rounds: self.total_rounds,
            current_round: self.current_round,
            currently_drawing: self.currently_drawing,
            title: self.title.clone(),
            correct_word: self.correct_word.clone(),
            round_start_time: self.round_start_time,
        }
    }
}

impl Player {
    /// A fresh, active player with no points.
    pub fn default(username: String) -> (r: Player)
        ensures
            r == (Player { username, score: 0, prev_score: 0, active: true }),
    {
        Player { username, score: 0, prev_score: 0, active: true }
    }

    pub fn copy(&self) -> (r: Player)
        ensures
            r == *self,
    {
        Player {
            username: self.username.clone(),
            score: self.score,
            prev_score: self.prev_score,
            active: self.active,
        }
    }
}

impl Room {
    pub open spec fn wf(&self) -> bool {
        self@.wf()
    }

    /// A room waiting to start, whose owner is its sole (active) player.
    pub fn new(owner: u128, room_id: u128, owner_username: String) -> (r: Room)
        ensures
            r.wf(),
            r.room_id == room_id,
            r.owner == owner,
            r.status == GameStatus::WAITING,
            r.players@ == seq![(owner, Player { username: owner_username, score: 0, prev_score: 0, active: true })],
            r.state.is_default_except_time(),
    {
        let mut players: Vec<(u128, Player)> = Vec::new();
        players.push((owner, Player::default(owner_username)));
        Room { room_id, status: GameStatus::WAITING, players, owner, state: GameState::default() }
    }

    /// A copy of the room, field by field.
    pub fn snapshot(&self) -> (r: Room)
        ensures
            r@ == self@,
    {
        let mut players: Vec<(u128, Player)> = Vec::new();
        let mut i: usize = 0;
        while i < self.players.len()
            invariant
                i <= self.players.len(),
                players@ == self.players@.subrange(0, i as int),
            decreases self.players.len() - i,
        {
            let entry = &self.players[i];
            players.push((entry.0, entry.1.copy()));
            i = i + 1;
            assert(players@ =~= self.players@.subrange(0, i as int));
        }
        assert(players@ =~= self.players@);
        Room {
            room_id: self.room_id,
            status: self.status,
            players,
            owner: self.owner,
            state: self.state.copy(),
        }
    }

    /// Where the player `id` sits in the roster.
    pub fn position(&self, id: u128) -> (r: Option<usize>)
        requires
            self.wf(),
        ensures
            r is None <==> !has_id(self.players@, id),
            r matches Some(i) ==> i == slot_of(self.players@, id) && i < self.players.len()
                && self.players@[i as int].0 == id,
    {
        let mut i: usize = 0;
        while i < self.players.len()
            invariant
                i <= self.players.len(),
                self.wf(),
                forall|k: int| 0 <= k < i ==> self.players@[k].0 != id,
            decreases self.players.len() - i,
        {
            if self.players[i].0 == id {
                proof {
                    let j = slot_of(self.players@, id);
                    assert(has_id(self.players@, id));
                    assert(0 <= j < self.players.len() && self.players@[j].0 == id);
                    if j != i as int {
                        if j < i as int {
                            assert(self.players@[j].0 < self.players@[i as int].0);
                        } else {
                            assert(self.players@[i as int].0 < self.players@[j].0);
                        }
                    }
                }
                return Some(i);
            }
            i = i + 1;
        }
        None
    }

    /// The player `id` of this room, if it has joined.
    pub fn get_player(&self, id: u128) -> (r: Option<&Player>)
        requires
            self.wf(),
        ensures
            r is None <==> !has_id(self.players@, id),
            r matches Some(p) ==> *p == self.players@[slot_of(self.players@, id)].1,
    {
        match self.position(id) {
            Some(i) => Some(&self.players[i].1),
            None => None,
        }
    }

    /// Whether a player other than `user` is still active here.
    pub fn has_other_active(&self, user: u128) -> (r: bool)
        ensures
            r == others_active(self.players@, user),
    {
        let mut i: usize = 0;
        while i < self.players.len()
            invariant
                i <= self.players.len(),
                forall|k: int| 0 <= k < i ==> !(self.players@[k].0 != user && #[trigger] self.players@[k].1.active),
            decreases self.players.len() - i,
        {
            if self.players[i].0 != user && self.players[i].1.active {
                assert(self.players@[i as int].1.active);
                return true;
            }
            i = i + 1;
        }
        false
    }

    /// Marks the player at slot `i` active or inactive, leaving all else as it was.
    pub fn set_active(&mut self, i: usize, active: bool)
        requires
            old(self).wf(),
            i < old(self).players.len(),
        ensures
            final(self).wf(),
            final(self)@ == (RoomView {
                players: old(self).players@.update(
                    i as int,
                    (old(self).players@[i as int].0, Player { active, ..old(self).players@[i as int].1 }),
                ),
                ..old(self)@
            }),
    {
        let id = self.players[i].0;
        let mut p = self.players[i].1.copy();
        p.active = active;
        let ghost before = self.players@;
        self.players.set(i, (id, p));
        proof {
            assert(self.players@ == before.update(i as int, (id, p)));
            assert forall|a: int, b: int| 0 <= a < b < self.players.len()
                implies self.players@[a].0 < self.players@[b].0 by {
                assert(before[a].0 < before[b].0);
            }
        }
    }

    /// Adds a player that is not in the roster yet, at its place in the order.
    pub fn add_player(&mut self, id: u128, player: Player)
        requires
            old(self).wf(),
            !has_id(old(self).players@, id),
        ensures
            final(self).wf(),
            final(self).players@ == with_player(old(self).players@, id, player),
            final(self)@ == (RoomView { players: final(self).players@, ..old(self)@ }),
    {
        let mut k: usize = 0;
        while k < self.players.len() && self.players[k].0 < id
            invariant
                k <= self.players.len(),
                forall|j: int| 0 <= j < k ==> self.players@[j].0 < id,
            decreases self.players.len() - k,
        {
            k = k + 1;
        }
        proof {
            if k < self.players.len() {
                assert(self.players@[k as int].0 != id);
                assert forall|j: int| k <= j < self.players.len() implies self.players@[j].0 > id by {
                    if j > k {
                        assert(self.players@[k as int].0 < self.players@[j].0);
                    }
                }
            }
        }
        let ghost before = self.players@;
        proof {
            insertion_point_unique(before, id, k as int);
        }
        self.players.insert(k, (id, player));
        assert(self.players@ == before.insert(k as int, (id, player)));
        assert(ids_sorted(self.players@));
    }

    /// Starts the game if `msg` comes from the owner; returns the updated
    /// room for announcing the new turn, or `None` when nothing changed.
    pub fn start_game(&mut self, msg: StartGameMsg, now: u128) -> (r: Option<Room>)
        ensures
            old(self)@.started_as(final(self)@, msg.user_id, msg.state, now),
            msg.user_id == old(self).owner ==> (r matches Some(snap) && snap@ == final(self)@),
            msg.user_id != old(self).owner ==> r is None,
    {
        if self.owner == msg.user_id {
            self.status = GameStatus::STARTED;
            self.state = msg.state;
            let word = "default".to_string();
            proof {
                reveal_strlit("default");
                assert(word@ =~= placeholder_word());
            }
            self.state.correct_word = word;
            self.state.round_start_time = now;
            Some(self.snapshot())
        } else {
            None
        }
    }

    /// Checks a guess against the secret word; a correct one earns the
    /// guesser the points of the elapsed time, after saving the old score.
    pub fn validate_guess(&mut self, data: UserGuessMsg, now: u128) -> (r: Option<GuessResultMsg>)
        requires
            old(self).wf(),
        ensures
            final(self).wf(),
            final(self)@ == old(self)@.after_guess(data.user_id, data.content@, now),
            r == Some(GuessResultMsg {
                user_id: data.user_id,
                username: data.username,
                content: data.content,
                correct: old(self).state.correct_word@ == trimmed_of(data.content@),
            }),
    {
        let trimmed = trim_text(data.content.as_str());
        self.score_guess(data, trimmed.as_str(), now)
    }

    /// Scores a guess given its trimmed text: it is correct when that text
    /// equals the secret word exactly.
    pub fn score_guess(&mut self, data: UserGuessMsg, trimmed: &str, now: u128) -> (r: Option<GuessResultMsg>)
        requires
            old(self).wf(),
        ensures
            final(self).wf(),
            final(self)@ == old(self)@.after_trimmed_guess(data.user_id, trimmed@, now),
            r == Some(GuessResultMsg {
                user_id: data.user_id,
                username: data.username,
                content: data.content,
                correct: old(self).state.correct_word@ == trimmed@,
            }),
    {
        let guess = trimmed.to_string();
        let correct = self.state.correct_word == guess;
        if correct {
            match self.position(data.user_id) {
                Some(i) => {
                    let p = self.players[i].1.copy();
                    let pts = award(self.state.round_start_time, now);
                    let score = p.score.saturating_add(pts);
                    let updated = Player { prev_score: p.score, score, ..p };
                    let ghost before = self.players@;
                    self.players.set(i, (data.user_id, updated));
                    proof {
                        assert(self.players@ == before.update(i as int, (data.user_id, updated)));
                        assert forall|a: int, b: int| 0 <= a < b < self.players.len()
                            implies self.players@[a].0 < self.players@[b].0 by {
                            assert(before[a].0 < before[b].0);
                        }
                    }
                }
                None => {}
            }
        }
        Some(GuessResultMsg { user_id: data.user_id, username: data.username, content: data.content, correct })
    }

    /// Ends the current turn if `data` comes from the drawer: the next
    /// player draws, or the next round begins, or the game ends. Returns the
    /// updated room and whether the game ended.
    pub fn end_turn(&mut self, data: EndGameMsg) -> (r: (Option<Room>, bool))
        ensures
            (final(self)@, r.1) == old(self)@.after_end_turn(data.user_id),
            r.0 matches Some(snap) && snap@ == final(self)@,
    {
        let mut game_ended = false;
        let cd = self.state.currently_drawing;
        if cd < self.players.len() && self.players[cd].0 == data.user_id {
            if cd + 1 < self.players.len() {
                self.state.currently_drawing = cd + 1;
            } else if self.state.current_round < self.state.total_rounds {
                self.state.current_round = self.state.current_round + 1;
                self.state.currently_drawing = 0;
            } else {
                game_ended = true;
            }
        }
        (Some(self.snapshot()), game_ended)
    }
}

/// Ending a turn keeps the drawer's index inside the roster: if it was
/// inside before the call, it is inside after it, whoever asked and whether
/// or not the game ended.
pub proof fn end_turn_keeps_drawer_in_roster(room: RoomView, requester: u128)
    requires
        room.state.currently_drawing < room.players.len(),
    ensures
        room.after_end_turn(requester).0.state.currently_drawing < room.after_end_turn(requester).0.players.len(),
        room.after_end_turn(requester).0.players == room.players,
{
}

/// A guess's points are never negative and never above the maximum; a guess
/// inside the turn's sixty seconds earns at least one point.
pub proof fn award_bounds(start: u128, now: u128)
    ensures
        0 <= award_spec(start, now) <= MAX_POINTS,
        (now < start || (now - start) / 1000 < ROUND_SECONDS) ==> award_spec(start, now) >= 1,
{
    let elapsed: int = if now >= start { (now - start) / 1000 } else { 0 };
    if elapsed < 60 {
        assert((60 - elapsed) * 100 / 60 >= 1 && (60 - elapsed) * 100 / 60 <= 100) by (nonlinear_arith)
            requires 0 <= elapsed < 60;
    }
}

/// A guess equal to the word after trimming, made within sixty seconds of
/// the turn's start by a player of the room, strictly raises that player's
/// score (short of the largest score) and saves the old score as the
/// previous one.
pub proof fn correct_guess_raises_score(room: RoomView, user: u128, guess: Seq<char>, now: u128)
    requires
        room.wf(),
        room.state.correct_word@ == trimmed_of(guess),
        has_id(room.players, user),
        now < room.state.round_start_time || (now - room.state.round_start_time) / 1000 < ROUND_SECONDS,
        room.players[slot_of(room.players, user)].1.score < usize::MAX,
    ensures
        room.after_guess(user, guess, now).players.len() == room.players.len(),
        room.after_guess(user, guess, now).players[slot_of(room.players, user)].0 == user,
        room.after_guess(user, guess, now).players[slot_of(room.players, user)].1.score
            > room.players[slot_of(room.players, user)].1.score,
        room.after_guess(user, guess, now).players[slot_of(room.players, user)].1.prev_score
            == room.players[slot_of(room.players, user)].1.score,
{
    award_bounds(room.state.round_start_time, now);
}

} // verus!

//! The message protocol: an envelope `{msg_type, content}` whose content is
//! the encoded payload for its type, and the payloads the dispatcher acts on.
use vstd::prelude::*;

use crate::room::GameState;

verus! {

#[derive(Clone, Copy, Debug, PartialEq, Eq, Structural)]
pub enum MessageTypes {
    Relay(RelayTypes),
    Game(GameTypes),
    Data(DataTypes),
}

/// Passed through to the rest of the room without interpretation.
#[derive(Clone, Copy, Debug, PartialEq, Eq, Structural)]
pub enum RelayTypes {
    Info,
    Draw,
    Text,
}

/// Game lifecycle events.
#[derive(Clone, Copy, Debug, PartialEq, Eq, Structural)]
pub enum GameTypes {
    StartGame,
    GameState,
    PlayerJoined,
    PlayerLeft,
    Guess,
    GuessResult,
    EndTurn,
    NewTurn,
    EndGame,
}

/// Session control.
#[derive(Clone, Copy, Debug, PartialEq, Eq, Structural)]
pub enum DataTypes {
    UserID,
}

/// The envelope exchanged over the websocket.
#[derive(Clone, Debug)]
pub struct ClientServerMessage {
    pub msg_type: MessageTypes,
    pub content: String,
}

/// Registration of a new connection with the dispatcher.
#[derive(Clone, Debug)]
pub struct Connect {
    pub user_id: u128,
    pub username: String,
    pub room_id: u128,
}

#[derive(Clone, Copy, Debug, PartialEq, Eq, Structural)]
pub struct Disconnect {
    pub room_id: u128,
    pub user_id: u128,
}

/// Raw text that a session forwards to the dispatcher.
#[derive(Clone, Debug)]
pub struct UserMessage {
    pub user_id: u128,
    pub msg: String,
    pub room_id: u128,
}

#[derive(Clone, Debug)]
pub struct UserGuessMsg {
    pub user_id: u128,
    pub username: String,
    pub content: String,
}

#[derive(Clone, Debug)]
pub struct GuessResultMsg {
    pub user_id: u128,
    pub username: String,
    pub content: String,
    pub correct: bool,
}

#[derive(Clone, Debug)]
pub struct UserMessageData {
    pub msg_type: String,
    pub content: String,
}

/// Lookup of a room's snapshot.
#[derive(Clone, Copy, Debug, PartialEq, Eq, Structural)]
pub struct RoomDetails(pub u128);

/// Lookup of one player of a room.
#[derive(Clone, Copy, Debug, PartialEq, Eq, Structural)]
pub struct GetPlayerDetails {
    pub user_id: u128,
    pub room_id: u128,
}

#[derive(Clone, Debug)]
pub struct StartGameMsg {
    pub user_id: u128,
    pub room_id: u128,
    pub state: GameState,
}

#[derive(Clone, Copy, Debug, PartialEq, Eq, Structural)]
pub struct EndGameMsg {
    pub user_id: u128,
    pub room_id: u128,
}

} // verus!

//! Coordination core of a turn-based drawing-and-guessing game server.
//!
//! Identities (of users and rooms) are 128-bit UUID values held as `u128`,
//! whose order is the byte order of the UUID. The HTTP and websocket
//! plumbing lives outside this library; it hands the library decoded values
//! and delivers what the library decides to send.

mod ids;
pub mod messages;
pub mod room;
pub mod server;
pub mod session;

pub use ids::{parse_details_request, parse_player_request};
pub use messages::{
    ClientServerMessage, Connect, DataTypes, Disconnect, EndGameMsg, GameTypes, GetPlayerDetails,
    GuessResultMsg, MessageTypes, RelayTypes, RoomDetails, StartGameMsg, UserGuessMsg, UserMessage,
    UserMessageData,
};
pub use room::{award, GameState, GameStatus, Player, Room};
pub use server::{route, Broadcast, Outgoing, Payload, PlayerDetails, PlayerMovement, Route, Server};
pub use session::{parse_connect, ConnectQuery, Frame, HeartbeatAction, SessionAction, SessionRequest, UserSession};

//! The decisions of one connection: what to do with each frame the client
//! sends, when the client counts as gone, and what to tell the dispatcher.
//! Times are milliseconds on a clock that only moves forward.
use vstd::prelude::*;

use crate::ids::{fresh_id, id_text, id_text_of, parse_id, parsed_id, V4_BITS, V4_MASK};
use crate::messages::{ClientServerMessage, Connect, DataTypes, Disconnect, MessageTypes, UserMessage};

verus! {

/// How often the session probes the client.
pub const HEARTBEAT_INTERVAL_MS: u128 = 5000;

/// How long the client may stay silent before the session gives it up.
pub const CLIENT_TIMEOUT_MS: u128 = 10000;

/// The query of a connection request: an identity to resume (any text) and
/// a user name (possibly empty).
#[derive(Clone, Debug)]
pub struct ConnectQuery {
    pub session: String,
    pub username: String,
}

/// What a connection request asks for: its room, the identity to resume
/// if the query held one, and the user name if the query held one.
#[derive(Clone, Debug)]
pub struct SessionRequest {
    pub room: u128,
    pub id: Option<u128>,
    pub username: Option<String>,
}

/// A frame from the client, as the session sees it.
#[derive(Clone, Debug)]
pub enum Frame {
    Ping(Vec<u8>),
    Pong,
    Text(String),
    Binary(Vec<u8>),
    Close,
    Continuation,
    Nop,
    /// The frame could not be decoded.
    ProtocolError,
}

/// The text a client sends to learn its own identity.
pub open spec fn get_id_command() -> Seq<char> {
    seq!['G', 'E', 'T', '_', 'I', 'D']
}

/// What the session does in answer to a frame.
#[derive(Clone, Debug)]
pub enum SessionAction {
    /// Answer a ping with these bytes.
    Pong(Vec<u8>),
    /// Write this envelope back to the client, bypassing the dispatcher.
    Reply(ClientServerMessage),
    /// Hand this message to the dispatcher.
    Forward(UserMessage),
    /// Send these bytes back unchanged.
    EchoBinary(Vec<u8>),
    /// Close the connection and stop.
    Close,
    /// Stop.
    Stop,
    Nothing,
}

/// What the session does when its heartbeat timer fires.
#[derive(Clone, Copy, Debug, PartialEq, Eq, Structural)]
pub enum HeartbeatAction {
    Ping,
    /// The client is gone: tell the dispatcher, then stop.
    TimedOut(Disconnect),
}

/// Reads a connection request for the room named `room_id`; `None` when
/// that text is no identity.
pub fn parse_connect(room_id: &str, query: ConnectQuery) -> (r: Option<SessionRequest>)
    ensures
        r is None <==> parsed_id(room_id@) is None,
        r matches Some(req) ==> Some(req.room) == parsed_id(room_id@)
            && req.id == parsed_id(query.session@)
            && req.username == (if query.username@.len() > 0 { Some(query.username) } else { None::<String> }),
{
    match parse_id(room_id) {
        Some(room) => {
            let id = parse_id(query.session.as_str());
            let username = if query.username.as_str().is_empty() {
                None
            } else {
                Some(query.username)
            };
            Some(SessionRequest { room, id, username })
        }
        None => None,
    }
}

pub struct UserSession {
    pub id: u128,
    pub username: String,
    /// When the client was last heard from.
    pub hb: u128,
    pub room: u128,
}

impl UserSession {
    /// A session for `room`, resuming identity `id` if one is given and
    /// drawing a fresh one otherwise, and last heard from `now`.
    pub fn new(room: u128, id: Option<u128>, username: Option<String>, now: u128) -> (r: UserSession)
        ensures
            r.room == room,
            r.hb == now,
            id matches Some(i) ==> r.id == i,
            id is None ==> r.id & V4_MASK == V4_BITS,
            r.username@ == (match username {
                Some(u) => u@,
                None => Seq::<char>::empty(),
            }),
    {
        let id = match id {
            Some(i) => i,
            None => fresh_id(),
        };
        let username = match username {
            Some(u) => u,
            None => String::new(),
        };
        UserSession { id, username, hb: now, room }
    }

    pub open spec fn timed_out(&self, now: u128) -> bool {
        now > self.hb && now - self.hb > CLIENT_TIMEOUT_MS
    }

    /// The heartbeat check: probe the client, or give it up once it has
    /// been silent for longer than the timeout.
    pub fn hb(&self, now: u128) -> (r: HeartbeatAction)
        ensures
            self.timed_out(now) ==> r == HeartbeatAction::TimedOut(Disconnect { room_id: self.room, user_id: self.id }),
            !self.timed_out(now) ==> r == HeartbeatAction::Ping,
    {
        if now > self.hb && now - self.hb > CLIENT_TIMEOUT_MS {
            HeartbeatAction::TimedOut(Disconnect { room_id: self.room, user_id: self.id })
        } else {
            HeartbeatAction::Ping
        }
    }

    /// The registration the session sends to the dispatcher when it starts.
    pub fn started(&self) -> (r: Connect)
        ensures
            r == (Connect { user_id: self.id, username: self.username, room_id: self.room }),
    {
        Connect { user_id: self.id, username: self.username.clone(), room_id: self.room }
    }

    /// The notice the session sends to the dispatcher whenever it stops.
    pub fn stopping(&self) -> (r: Disconnect)
        ensures
            r == (Disconnect { room_id: self.room, user_id: self.id }),
    {
        Disconnect { room_id: self.room, user_id: self.id }
    }

    /// Decides what a frame from the client calls for. Pings and pongs
    /// count as signs of life; the text `GET_ID` is answered with the
    /// session's identity; other text goes to the dispatcher. A frame that
    /// could not be decoded ends this session alone.
    pub fn handle(&mut self, frame: Frame, now: u128) -> (r: SessionAction)
        ensures
            final(self).id == old(self).id,
            final(self).room == old(self).room,
            final(self).username == old(self).username,
            final(self).hb == (match frame {
                Frame::Ping(_) | Frame::Pong => now,
                _ => old(self).hb,
            }),
            match frame {
                Frame::Ping(b) => r == SessionAction::Pong(b),
                Frame::Pong | Frame::Nop => r == SessionAction::Nothing,
                Frame::Binary(b) => r == SessionAction::EchoBinary(b),
                Frame::Close => r == SessionAction::Close,
                Frame::Continuation | Frame::ProtocolError => r == SessionAction::Stop,
                Frame::Text(s) => if s@ == get_id_command() {
                    r matches SessionAction::Reply(m) && m.msg_type == MessageTypes::Data(DataTypes::UserID)
                        && m.content@ == id_text_of(old(self).id)
                } else {
                    r == SessionAction::Forward(UserMessage { user_id: old(self).id, msg: s, room_id: old(self).room })
                },
            },
    {
        match frame {
            Frame::Ping(b) => {
                self.hb = now;
                SessionAction::Pong(b)
            }
            Frame::Pong => {
                self.hb = now;
                SessionAction::Nothing
            }
            Frame::Nop => SessionAction::Nothing,
            Frame::Binary(b) => SessionAction::EchoBinary(b),
            Frame::Close => SessionAction::Close,
            Frame::Continuation | Frame::ProtocolError => SessionAction::Stop,
            Frame::Text(s) => {
                let cmd = "GET_ID".to_string();
                proof {
                    reveal_strlit("GET_ID");
                    assert(cmd@ =~= get_id_command());
                }
                if s == cmd {
                    SessionAction::Reply(ClientServerMessage {
                        msg_type: MessageTypes::Data(DataTypes::UserID),
                        content: id_text(self.id),
                    })
                } else {
                    SessionAction::Forward(UserMessage { user_id: self.id, msg: s, room_id: self.room })
                }
            }
        }
    }
}

} // verus!

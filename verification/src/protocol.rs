//! The logical messages exchanged between player and server, and the error
//! kinds that can appear on the wire.  Parsing and serialisation live in
//! `codec`.

use vstd::prelude::*;
use crate::game_id::GameId;
use crate::lobby_mgr::LobbyKind;
use crate::users::UserId;

verus! {

/// Error kinds visible on the wire as `ERROR:<kind>`.
#[derive(Clone, Copy, Debug, PartialEq, Eq, Structural)]
pub enum SrvMsgError {
    Internal,
    LobbyNotFound,
    LobbyFull,
    InvalidColumn,
    NotInLobby,
    NotYourTurn,
    AlreadyInLobby,
    GameNotStarted,
    GameNotOver,
    IncorrectCredentials,
    NotLoggedIn,
    UserNotPlaying,
    NoSuchUser,
    AlreadyPlaying,
}

/// A logical message sent by the player to the server.
#[derive(Clone, Debug)]
pub enum PlayerMessage {
    PlaceChip(usize),
    PlayAgainRequest,
    Leaving,
    Ping,
    LobbyRequest(LobbyKind),
    LobbyJoin(GameId),
    Login(String),
    Logout,
    BattleReq(UserId),
    ChatMessage(String),
    ChatRead,
    ReadyForGamePong,
}

/// A logical message sent by the server to the player.
#[derive(Clone, Debug)]
pub enum ServerMessage {
    PlaceChip(usize),
    OpponentLeaving,
    OpponentJoining,
    LobbyResponse(GameId),
    /// First field: true when the recipient moves first; second: the
    /// opponent's user id when the opponent is logged in.
    GameStart(bool, Option<String>),
    /// True when the recipient won.
    GameOver(bool),
    LobbyClosing,
    Okay,
    Pong,
    ReadyForGamePing,
    Error(Option<SrvMsgError>),
    BattleReq(UserId, GameId),
    /// Connected players, and whether someone is waiting for a public match.
    CurrentServerState(usize, bool),
    /// is_global, message text, sender name when known.
    ChatMessage(bool, String, Option<String>),
    /// is_global
    ChatRead(bool),
}

/// Why an incoming frame was rejected; echoed as `ERR::<reason>`.
#[derive(Clone, Copy, Debug, PartialEq, Eq, Structural)]
pub enum ReliabilityError {
    /// The payload of a `MSG` frame could not be parsed.
    InvalidContent,
    /// The frame looked like `ACK` or `MSG` but its id did not parse.
    InvalidFormat,
    /// The frame fits no known shape.
    UnknownMessage,
}

/// A numbered frame arriving from the client.
#[derive(Clone, Debug)]
pub enum ReliablePacketIn {
    /// The client acknowledges the server's message with this id.
    Ack(usize),
    /// A logical message with its id.
    Msg(usize, PlayerMessage),
}

/// A numbered frame leaving the server.
#[derive(Clone, Debug)]
pub enum ReliablePacketOut {
    /// The server acknowledges the client's message with this id.
    Ack(usize),
    Msg { id: usize, msg: ServerMessage, retry_count: usize },
    Error(ReliabilityError),
}

/// The client's opening frame.
pub struct HelloIn {
    pub protocol_version: usize,
    /// A 32-character token when the client asks to resume a session.
    pub maybe_session_token: Option<String>,
}

/// The server's answer to a HELLO.
pub enum HelloOut {
    /// Carries the session token; true when the token was freshly minted.
    Accepted(String, bool),
    /// The client's protocol version is too old.
    OutDated,
}

} // verus!

//! Identifiers and events for the game/lobby activity log.

use vstd::prelude::*;

verus! {

/// Identifier of one played game in the activity log.
#[derive(Clone, Copy, Debug, PartialEq, Eq, Structural)]
pub struct GameOId(pub u64);

impl GameOId {
    pub fn new(raw: u64) -> (r: GameOId)
        ensures
            r == (GameOId(raw)),
    {
        GameOId(raw)
    }
}

/// Identifier of one lobby in the activity log.
#[derive(Clone, Copy, Debug, PartialEq, Eq, Structural)]
pub struct LobbyId(pub u64);

impl LobbyId {
    pub fn new(raw: u64) -> (r: LobbyId)
        ensures
            r == (LobbyId(raw)),
    {
        LobbyId(raw)
    }
}

/// Why a game ended.
#[derive(Clone, Copy, Debug, PartialEq, Eq, Structural)]
pub enum GameEndReason {
    Regular,
    PlayerLeft,
    PlayerDisconnected,
}

/// Why a lobby closed.
#[derive(Clone, Copy, Debug, PartialEq, Eq, Structural)]
pub enum LobbyCloseReason {
    /// The host waited but nobody joined.
    Cancel,
    /// At least one game was played.
    Success { games_played: u32 },
}

#[derive(Clone, Copy, Debug, PartialEq, Eq, Structural)]
pub enum GameLogEvent {
    StartGame { id: GameOId, ranked: bool },
    EndGame { id: GameOId, reason: GameEndReason },
}

#[derive(Clone, Copy, Debug, PartialEq, Eq, Structural)]
pub enum LobbyLogEvent {
    LobbyCreated { id: LobbyId },
    LobbyClosed { id: LobbyId },
}

/// Collects activity events; the surrounding program decides where they go.
pub struct Logger {
    pub game_events: Vec<GameLogEvent>,
    pub lobby_events: Vec<LobbyLogEvent>,
}

impl Logger {
    pub fn new() -> (r: Logger)
        ensures
            r.game_events@.len() == 0,
            r.lobby_events@.len() == 0,
    {
        Logger { game_events: Vec::new(), lobby_events: Vec::new() }
    }

    pub fn log_game(&mut self, event: GameLogEvent)
        ensures
            final(self).game_events@ == old(self).game_events@.push(event),
            final(self).lobby_events@ == old(self).lobby_events@,
    {
        self.game_events.push(event);
    }

    pub fn log_lobby(&mut self, event: LobbyLogEvent)
        ensures
            final(self).lobby_events@ == old(self).lobby_events@.push(event),
            final(self).game_events@ == old(self).game_events@,
    {
        self.lobby_events.push(event);
    }
}

} // verus!

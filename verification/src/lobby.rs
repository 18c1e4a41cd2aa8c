//! One match between two sessions: join handshake, turn arbitration, chat
//! relay, rematch voting and teardown.
//!
//! The lobby is a state machine from messages to effects; the surrounding
//! program owns the timers and delivers each effect to the right actor.

use vstd::prelude::*;
use crate::board::{GameInfo, place_transition};
use crate::game_id::GameId;
use crate::logging::{GameEndReason, GameOId};
use crate::player::Player;
use crate::protocol::{ServerMessage, SrvMsgError};
use crate::users::{PlayedGameInfo, UserId};

verus! {

/// Lobby inactivity bound, in seconds.
pub const LOBBY_TIMEOUT_S: u64 = 1800;

/// Delay between pairing and the first `GameStart`, in seconds.
pub const GAME_START_DELAY_S: u64 = 2;

/// How long the host may take to answer the ready ping, in milliseconds.
pub const GAME_READY_RESPONSE_TIMEOUT_MS: u64 = 5000;

/// Whether a player left on purpose or lost its connection.
#[derive(Clone, Copy, Debug, PartialEq, Eq, Structural)]
pub enum PlayerLeaveReason {
    Leave,
    Disconnect,
}

/// What a member session can ask of its lobby.
pub enum ClientLobbyMessage {
    PlayerLeaving { reason: PlayerLeaveReason },
    PlayAgainRequest,
    PlaceChip(usize),
    /// Message text and the sender's name when logged in.
    ChatMessage(String, Option<String>),
    ChatRead,
}

/// A member message together with which side sent it.
pub struct ClientLobbyMessageNamed {
    pub sender: Player,
    pub msg: ClientLobbyMessage,
}

/// Control messages of the lobby itself.
pub enum LobbyMessage {
    ReceivedReadyForGamePong,
    GameStart,
    LobbyClose,
    PlayerJoined { maybe_uid: Option<UserId> },
}

/// Which game is being played and, for ranked games, by whom.
pub enum GameType {
    Registered(GameInfo, UserId, UserId),
    Anonymous(GameInfo),
}

impl GameType {
    pub open spec fn game(self) -> GameInfo {
        match self {
            GameType::Registered(g, _, _) => g,
            GameType::Anonymous(g) => g,
        }
    }

    pub open spec fn is_registered(self) -> bool {
        self is Registered
    }
}

/// The lobby's phase.
pub enum LobbyState {
    OnePlayer { host_uid: Option<UserId> },
    TwoPlayersWaitingForPong { host_uid: Option<UserId>, joined_uid: Option<UserId> },
    TwoPlayers { game_oid: GameOId, game_type: GameType },
}

/// The two member slots: the host opened the lobby and plays `One`, the
/// joiner plays `Two`.
#[derive(Clone, Copy, Debug, PartialEq, Eq, Structural)]
pub enum LobbySide {
    Host,
    Joiner,
}

pub open spec fn side_of(p: Player) -> LobbySide {
    if p == Player::One {
        LobbySide::Host
    } else {
        LobbySide::Joiner
    }
}

fn side_of_exec(p: Player) -> (s: LobbySide)
    ensures
        s == side_of(p),
{
    if p == Player::One {
        LobbySide::Host
    } else {
        LobbySide::Joiner
    }
}

/// What the lobby asks its surroundings to do.
pub enum LobbyEffect {
    /// Deliver a server message to one member session.
    ToSession(LobbySide, ServerMessage),
    /// Deliver a server message to the session that tried to join.
    ToJoiningSession(ServerMessage),
    /// Return that member session to its idle state.
    ResetSession(LobbySide),
    /// Tell the joiner that the ready handshake completed.
    ReadyResponseToJoiner,
    /// Remove this lobby from the registry.
    CloseLobbyAtRegistry,
    /// Record a finished ranked game.
    RecordPlayedGame(PlayedGameInfo),
    LogGameStart { oid: GameOId, ranked: bool },
    LogGameEnd { oid: GameOId, reason: GameEndReason },
    LogLobbyClosed,
    /// Arm the ready-pong timeout.
    ArmReadyTimeout,
    CancelReadyTimeout,
    /// Deliver `LobbyMessage::GameStart` after the start delay.
    ScheduleGameStart,
    /// Deliver `LobbyMessage::GameStart` at once.
    NotifyGameStart,
    /// The lobby stops; `stopping` gives the farewell messages.
    Stop,
}

/// One lobby: its id, phase and last activity time (milliseconds).
pub struct Lobby {
    pub game_id: GameId,
    pub state: LobbyState,
    pub last_activity_at: u64,
}

/// Boards held by a lobby are well-formed.
pub open spec fn lobby_wf(l: Lobby) -> bool {
    match l.state {
        LobbyState::TwoPlayers { game_oid: _, game_type } => game_type.game().wf(),
        _ => true,
    }
}

/// Both sides have asked for a rematch once `sender` repeats the request of
/// the other side.
pub open spec fn rematch_completes(pre: Lobby, sender: Player) -> bool {
    match pre.state {
        LobbyState::TwoPlayers { game_oid: _, game_type } => match game_type.game().winner {
            Some(wi) => match wi.requesting_rematch {
                Some(p) => p != sender,
                None => false,
            },
            None => false,
        },
        _ => false,
    }
}

impl Lobby {
    /// A fresh lobby holding only its host.
    pub fn new(game_id: GameId, maybe_host_uid: Option<UserId>, now_ms: u64) -> (r: Lobby)
        ensures
            lobby_wf(r),
            r.game_id == game_id,
            r.last_activity_at == now_ms,
            r.state matches LobbyState::OnePlayer { host_uid } && (match (
                host_uid,
                maybe_host_uid,
            ) {
                (Some(a), Some(b)) => a@ == b@,
                (None, None) => true,
                _ => false,
            }),
    {
        Lobby {
            game_id,
            state: LobbyState::OnePlayer { host_uid: maybe_host_uid },
            last_activity_at: now_ms,
        }
    }

    /// Handles one message from a member session.
    pub fn handle_client_message(
        &mut self,
        msg_named: ClientLobbyMessageNamed,
        now_ms: u64,
    ) -> (r: Vec<LobbyEffect>)
        requires
            lobby_wf(*old(self)),
        ensures
            lobby_wf(*final(self)),
            final(self).game_id == old(self).game_id,
            final(self).last_activity_at == now_ms,
            match msg_named.msg {
                ClientLobbyMessage::PlayerLeaving { reason } => final(self).ensures_leaving(
                    *old(self),
                    msg_named.sender,
                    reason,
                    r@,
                ),
                ClientLobbyMessage::PlayAgainRequest => final(self).ensures_rematch(
                    *old(self),
                    msg_named.sender,
                    r@,
                ),
                ClientLobbyMessage::PlaceChip(column) => final(self).ensures_place(
                    *old(self),
                    msg_named.sender,
                    column as int,
                    r@,
                ),
                ClientLobbyMessage::ChatMessage(_, _) => final(self).ensures_chat(*old(self), r@),
                ClientLobbyMessage::ChatRead => final(self).ensures_chat(*old(self), r@),
            },
            (match msg_named.msg {
                ClientLobbyMessage::ChatMessage(text, name) => match old(self).state {
                    LobbyState::TwoPlayers { .. } => r@ =~= seq![
                        LobbyEffect::ToSession(
                            side_of(msg_named.sender.spec_other()),
                            ServerMessage::ChatMessage(false, text, name),
                        ),
                    ],
                    _ => r@.len() == 0,
                },
                ClientLobbyMessage::ChatRead => match old(self).state {
                    LobbyState::TwoPlayers { .. } => r@ =~= seq![
                        LobbyEffect::ToSession(
                            side_of(msg_named.sender.spec_other()),
                            ServerMessage::ChatRead(false),
                        ),
                    ],
                    _ => r@.len() == 0,
                },
                _ => true,
            }),
    {
        self.last_activity_at = now_ms;
        let sender = msg_named.sender;
        match msg_named.msg {
            ClientLobbyMessage::PlayerLeaving { reason } => self.client_leaving(sender, reason),
            ClientLobbyMessage::PlayAgainRequest => self.client_rematch(sender),
            ClientLobbyMessage::PlaceChip(column) => self.client_place(sender, column),
            ClientLobbyMessage::ChatMessage(text, name) => {
                match self.state {
                    LobbyState::TwoPlayers { .. } => {
                        let mut r: Vec<LobbyEffect> = Vec::new();
                        r.push(LobbyEffect::ToSession(
                            side_of_exec(sender.other()),
                            ServerMessage::ChatMessage(false, text, name),
                        ));
                        r
                    },
                    _ => Vec::new(),
                }
            },
            ClientLobbyMessage::ChatRead => {
                match self.state {
                    LobbyState::TwoPlayers { .. } => {
                        let mut r: Vec<LobbyEffect> = Vec::new();
                        r.push(LobbyEffect::ToSession(
                            side_of_exec(sender.other()),
                            ServerMessage::ChatRead(false),
                        ));
                        r
                    },
                    _ => Vec::new(),
                }
            },
        }
    }

    /// A chat relay goes to the opposite side only, and only once a game
    /// exists; the phase itself never changes.
    pub open spec fn ensures_chat(self, pre: Lobby, r: Seq<LobbyEffect>) -> bool {
        &&& self.state == pre.state
        &&& (pre.state is TwoPlayers ==> r.len() == 1)
        &&& (!(pre.state is TwoPlayers) ==> r.len() == 0)
    }

    /// Leaving always closes the lobby; the other side, if any, learns of it
    /// and is reset.
    pub open spec fn ensures_leaving(
        self,
        pre: Lobby,
        sender: Player,
        reason: PlayerLeaveReason,
        r: Seq<LobbyEffect>,
    ) -> bool {
        &&& self.state == pre.state
        &&& match pre.state {
            LobbyState::OnePlayer { .. } => r =~= seq![
                LobbyEffect::CloseLobbyAtRegistry,
                LobbyEffect::LogLobbyClosed,
                LobbyEffect::Stop,
            ],
            LobbyState::TwoPlayersWaitingForPong { .. } => r =~= seq![
                LobbyEffect::CloseLobbyAtRegistry,
                LobbyEffect::LogLobbyClosed,
                LobbyEffect::ResetSession(side_of(sender.spec_other())),
                LobbyEffect::ToSession(
                    side_of(sender.spec_other()),
                    ServerMessage::OpponentLeaving,
                ),
                LobbyEffect::Stop,
            ],
            LobbyState::TwoPlayers { game_oid, game_type: _ } => r =~= seq![
                LobbyEffect::CloseLobbyAtRegistry,
                LobbyEffect::LogLobbyClosed,
                (LobbyEffect::LogGameEnd {
                    oid: game_oid,
                    reason: (match reason {
                        PlayerLeaveReason::Leave => GameEndReason::PlayerLeft,
                        PlayerLeaveReason::Disconnect => GameEndReason::PlayerDisconnected,
                    }),
                }),
                LobbyEffect::ResetSession(side_of(sender.spec_other())),
                LobbyEffect::ToSession(
                    side_of(sender.spec_other()),
                    ServerMessage::OpponentLeaving,
                ),
                LobbyEffect::Stop,
            ],
        }
    }

    fn client_leaving(&mut self, sender: Player, reason: PlayerLeaveReason) -> (r: Vec<
        LobbyEffect,
    >)
        requires
            lobby_wf(*old(self)),
        ensures
            lobby_wf(*final(self)),
            final(self).game_id == old(self).game_id,
            final(self).last_activity_at == old(self).last_activity_at,
            final(self).ensures_leaving(*old(self), sender, reason, r@),
    {
        let mut r: Vec<LobbyEffect> = Vec::new();
        r.push(LobbyEffect::CloseLobbyAtRegistry);
        r.push(LobbyEffect::LogLobbyClosed);
        match &self.state {
            LobbyState::TwoPlayers { game_oid, game_type: _ } => {
                r.push(LobbyEffect::LogGameEnd {
                    oid: *game_oid,
                    reason: match reason {
                        PlayerLeaveReason::Leave => GameEndReason::PlayerLeft,
                        PlayerLeaveReason::Disconnect => GameEndReason::PlayerDisconnected,
                    },
                });
                r.push(LobbyEffect::ResetSession(side_of_exec(sender.other())));
                r.push(LobbyEffect::ToSession(
                    side_of_exec(sender.other()),
                    ServerMessage::OpponentLeaving,
                ));
            },
            LobbyState::TwoPlayersWaitingForPong { .. } => {
                r.push(LobbyEffect::ResetSession(side_of_exec(sender.other())));
                r.push(LobbyEffect::ToSession(
                    side_of_exec(sender.other()),
                    ServerMessage::OpponentLeaving,
                ));
            },
            LobbyState::OnePlayer { .. } => {},
        }
        r.push(LobbyEffect::Stop);
        r
    }

    /// The rematch vote: a game starts again exactly when winner and loser
    /// have both asked since the game ended.
    pub open spec fn ensures_rematch(self, pre: Lobby, sender: Player, r: Seq<LobbyEffect>) -> bool {
        match pre.state {
            LobbyState::TwoPlayers { game_oid, game_type } => {
                match game_type.game().winner {
                    Some(wi) => match wi.requesting_rematch {
                        Some(p) => {
                            &&& self.state == pre.state
                            &&& if p != sender {
                                r =~= seq![LobbyEffect::NotifyGameStart]
                            } else {
                                r.len() == 0
                            }
                        },
                        None => {
                            // record the first vote, nothing else changes
                            &&& r.len() == 0
                            &&& (self.state matches LobbyState::TwoPlayers {
                                game_oid: oid2,
                                game_type: gt2,
                            } && oid2 == game_oid && gt2.is_registered()
                                == game_type.is_registered() && gt2.game().board()
                                == game_type.game().board() && gt2.game().turn
                                == game_type.game().turn && (gt2.game().winner matches Some(wi2)
                                && wi2.winner == wi.winner && wi2.requesting_rematch == Some(
                                sender,
                            )))
                        },
                    },
                    None => {
                        &&& self.state == pre.state
                        &&& r =~= seq![
                            LobbyEffect::ToSession(
                                side_of(sender),
                                ServerMessage::Error(Some(SrvMsgError::GameNotOver)),
                            ),
                        ]
                    },
                }
            },
            LobbyState::TwoPlayersWaitingForPong { .. } => {
                &&& self.state == pre.state
                &&& r =~= seq![
                    LobbyEffect::ToSession(
                        LobbySide::Host,
                        ServerMessage::Error(Some(SrvMsgError::GameNotStarted)),
                    ),
                    LobbyEffect::ToSession(
                        LobbySide::Joiner,
                        ServerMessage::Error(Some(SrvMsgError::GameNotStarted)),
                    ),
                ]
            },
            LobbyState::OnePlayer { .. } => {
                &&& self.state == pre.state
                &&& r =~= seq![
                    LobbyEffect::ToSession(
                        LobbySide::Host,
                        ServerMessage::Error(Some(SrvMsgError::GameNotStarted)),
                    ),
                ]
            },
        }
    }

    fn client_rematch(&mut self, sender: Player) -> (r: Vec<LobbyEffect>)
        requires
            lobby_wf(*old(self)),
        ensures
            lobby_wf(*final(self)),
            final(self).game_id == old(self).game_id,
            final(self).last_activity_at == old(self).last_activity_at,
            final(self).ensures_rematch(*old(self), sender, r@),
    {
        let mut r: Vec<LobbyEffect> = Vec::new();
        match &mut self.state {
            LobbyState::TwoPlayers { game_oid: _, game_type } => {
                let game = match game_type {
                    GameType::Registered(g, _, _) => g,
                    GameType::Anonymous(g) => g,
                };
                match game.winner {
                    Some(winner_info) => {
                        match winner_info.requesting_rematch {
                            Some(already_requested) => {
                                if already_requested != sender {
                                    r.push(LobbyEffect::NotifyGameStart);
                                }
                            },
                            None => {
                                let ghost g0 = *game;
                                game.winner = Some(crate::board::WinnerInfo {
                                    winner: winner_info.winner,
                                    requesting_rematch: Some(sender),
                                });
                                proof {
                                    assert(game.board() =~~= g0.board());
                                    assert forall|c: int, r1: int, r2: int|
                                        0 <= c < 7 && 0 <= r1 < r2 < 7 && (
                                        #[trigger] game.cell_at(c, r1)) is Some implies (
                                        #[trigger] game.cell_at(c, r2)) is Some by {
                                        assert(game.cell_at(c, r1) == g0.cell_at(c, r1));
                                        assert(game.cell_at(c, r2) == g0.cell_at(c, r2));
                                    }
                                    assert forall|c: int| 0 <= c < 7 implies (
                                    #[trigger] game.board()[c]).len() == 7 by {
                                        assert(game.board()[c] == g0.board()[c]);
                                    }
                                    assert(game.wf());
                                }
                            },
                        }
                    },
                    None => {
                        r.push(LobbyEffect::ToSession(
                            side_of_exec(sender),
                            ServerMessage::Error(Some(SrvMsgError::GameNotOver)),
                        ));
                    },
                }
            },
            LobbyState::TwoPlayersWaitingForPong { .. } => {
                r.push(LobbyEffect::ToSession(
                    LobbySide::Host,
                    ServerMessage::Error(Some(SrvMsgError::GameNotStarted)),
                ));
                r.push(LobbyEffect::ToSession(
                    LobbySide::Joiner,
                    ServerMessage::Error(Some(SrvMsgError::GameNotStarted)),
                ));
            },
            LobbyState::OnePlayer { .. } => {
                r.push(LobbyEffect::ToSession(
                    LobbySide::Host,
                    ServerMessage::Error(Some(SrvMsgError::GameNotStarted)),
                ));
            },
        }
        r
    }

    /// A move is applied to the board under the board's own rules; the
    /// opponent sees the accepted column, a winning move ends the game for
    /// both and records a ranked result, a rejected move reports its error
    /// to the mover alone.
    pub open spec fn ensures_place(
        self,
        pre: Lobby,
        sender: Player,
        column: int,
        r: Seq<LobbyEffect>,
    ) -> bool {
        match pre.state {
            LobbyState::TwoPlayers { game_oid, game_type } => {
                let pre_game = game_type.game();
                &&& self.state matches LobbyState::TwoPlayers {
                    game_oid: oid2,
                    game_type: gt2,
                } && oid2 == game_oid && gt2.is_registered() == game_type.is_registered() && {
                    let post_game = gt2.game();
                    if pre_game.place_accepted(column, sender) {
                        &&& place_transition(pre_game, post_game, column, sender)
                        &&& r[0] == (LobbyEffect::ToSession(
                            side_of(sender.spec_other()),
                            ServerMessage::PlaceChip(column as usize),
                        ))
                        &&& r[1] == (LobbyEffect::ToSession(
                            side_of(sender),
                            ServerMessage::Okay,
                        ))
                        &&& match post_game.winner {
                            Some(wi) => {
                                &&& r.len() == (if game_type.is_registered() {
                                    6int
                                } else {
                                    5int
                                })
                                &&& r[2] == (LobbyEffect::ToSession(
                                    side_of(sender),
                                    ServerMessage::GameOver(sender == wi.winner),
                                ))
                                &&& r[3] == (LobbyEffect::ToSession(
                                    side_of(sender.spec_other()),
                                    ServerMessage::GameOver(sender.spec_other() == wi.winner),
                                ))
                                &&& r[4] == (LobbyEffect::LogGameEnd {
                                    oid: game_oid,
                                    reason: GameEndReason::Regular,
                                })
                                &&& (game_type matches GameType::Registered(_, h, j) ==> (
                                r[5] matches LobbyEffect::RecordPlayedGame(info) && (
                                if wi.winner == Player::One {
                                    info.winner@ == h@ && info.loser@ == j@
                                } else {
                                    info.winner@ == j@ && info.loser@ == h@
                                })))
                            },
                            None => r.len() == 2,
                        }
                    } else {
                        &&& post_game == pre_game
                        &&& r.len() == 1
                        &&& r[0] matches LobbyEffect::ToSession(side, ServerMessage::Error(e))
                            && side == side_of(sender) && e is Some
                    }
                }
            },
            LobbyState::TwoPlayersWaitingForPong { .. } => {
                &&& self.state == pre.state
                &&& r =~= seq![
                    LobbyEffect::ToSession(
                        LobbySide::Host,
                        ServerMessage::Error(Some(SrvMsgError::GameNotStarted)),
                    ),
                    LobbyEffect::ToSession(
                        LobbySide::Joiner,
                        ServerMessage::Error(Some(SrvMsgError::GameNotStarted)),
                    ),
                ]
            },
            LobbyState::OnePlayer { .. } => {
                &&& self.state == pre.state
                &&& r =~= seq![
                    LobbyEffect::ToSession(
                        LobbySide::Host,
                        ServerMessage::Error(Some(SrvMsgError::GameNotStarted)),
                    ),
                ]
            },
        }
    }

    fn client_place(&mut self, sender: Player, column: usize) -> (r: Vec<LobbyEffect>)
        requires
            lobby_wf(*old(self)),
        ensures
            lobby_wf(*final(self)),
            final(self).game_id == old(self).game_id,
            final(self).last_activity_at == old(self).last_activity_at,
            final(self).ensures_place(*old(self), sender, column as int, r@),
    {
        let mut r: Vec<LobbyEffect> = Vec::new();
        match &mut self.state {
            LobbyState::TwoPlayers { game_oid, game_type } => {
                let oid = *game_oid;
                let mut registered_ids: Option<(UserId, UserId)> = None;
                let game = match game_type {
                    GameType::Registered(g, host_id, joined_id) => {
                        registered_ids = Some((host_id.duplicate(), joined_id.duplicate()));
                        g
                    },
                    GameType::Anonymous(g) => g,
                };
                match game.place_chip(column, sender) {
                    Ok(maybe_winner) => {
                        r.push(LobbyEffect::ToSession(
                            side_of_exec(sender.other()),
                            ServerMessage::PlaceChip(column),
                        ));
                        r.push(LobbyEffect::ToSession(
                            side_of_exec(sender),
                            ServerMessage::Okay,
                        ));
                        if let Some(winner) = maybe_winner {
                            r.push(LobbyEffect::ToSession(
                                side_of_exec(sender),
                                ServerMessage::GameOver(sender == winner),
                            ));
                            r.push(LobbyEffect::ToSession(
                                side_of_exec(sender.other()),
                                ServerMessage::GameOver(sender.other() == winner),
                            ));
                            r.push(LobbyEffect::LogGameEnd {
                                oid,
                                reason: GameEndReason::Regular,
                            });
                            if let Some((host_id, joined_id)) = registered_ids {
                                let (winner_id, loser_id) = if winner == Player::One {
                                    (host_id, joined_id)
                                } else {
                                    (joined_id, host_id)
                                };
                                r.push(LobbyEffect::RecordPlayedGame(PlayedGameInfo::new(
                                    winner_id,
                                    loser_id,
                                )));
                            }
                        }
                    },
                    Err(maybe_err) => {
                        r.push(LobbyEffect::ToSession(
                            side_of_exec(sender),
                            ServerMessage::Error(maybe_err),
                        ));
                    },
                }
            },
            LobbyState::TwoPlayersWaitingForPong { .. } => {
                r.push(LobbyEffect::ToSession(
                    LobbySide::Host,
                    ServerMessage::Error(Some(SrvMsgError::GameNotStarted)),
                ));
                r.push(LobbyEffect::ToSession(
                    LobbySide::Joiner,
                    ServerMessage::Error(Some(SrvMsgError::GameNotStarted)),
                ));
            },
            LobbyState::OnePlayer { .. } => {
                r.push(LobbyEffect::ToSession(
                    LobbySide::Host,
                    ServerMessage::Error(Some(SrvMsgError::GameNotStarted)),
                ));
            },
        }
        r
    }
}

impl Lobby {
    /// Handles one control message.  `fresh_oid` names the game that starts
    /// when the ready handshake completes; it is ignored otherwise.
    pub fn handle_lobby_message(&mut self, msg: LobbyMessage, fresh_oid: GameOId, now_ms: u64) -> (
        r: Vec<LobbyEffect>)
        requires
            lobby_wf(*old(self)),
        ensures
            lobby_wf(*final(self)),
            final(self).game_id == old(self).game_id,
            match msg {
                LobbyMessage::LobbyClose => final(self).state == old(self).state && r@ =~= seq![
                    LobbyEffect::Stop,
                ],
                LobbyMessage::GameStart => final(self).ensures_game_start(*old(self), r@),
                LobbyMessage::ReceivedReadyForGamePong => final(self).ensures_ready_pong(
                    *old(self),
                    fresh_oid,
                    r@,
                ),
                LobbyMessage::PlayerJoined { maybe_uid } => final(self).ensures_player_joined(
                    *old(self),
                    maybe_uid,
                    r@,
                ),
            },
    {
        match msg {
            LobbyMessage::LobbyClose => {
                let mut r: Vec<LobbyEffect> = Vec::new();
                r.push(LobbyEffect::Stop);
                r
            },
            LobbyMessage::GameStart => self.game_start(),
            LobbyMessage::ReceivedReadyForGamePong => self.ready_pong(fresh_oid, now_ms),
            LobbyMessage::PlayerJoined { maybe_uid } => self.player_joined(maybe_uid, now_ms),
        }
    }

    /// A (re)start: the board is cleared, and the two sides are told who
    /// moves first — exactly one of them hears `true`.
    pub open spec fn ensures_game_start(self, pre: Lobby, r: Seq<LobbyEffect>) -> bool {
        match pre.state {
            LobbyState::TwoPlayers { game_oid, game_type } => {
                &&& self.state matches LobbyState::TwoPlayers { game_oid: oid2, game_type: gt2 }
                    && oid2 == game_oid && gt2.is_registered() == game_type.is_registered() && {
                    let g = gt2.game();
                    &&& g.board() == crate::board::empty_board()
                    &&& g.winner is None
                    &&& r.len() == 2
                    &&& (r[0] matches LobbyEffect::ToSession(s0, ServerMessage::GameStart(
                        host_first,
                        host_opp,
                    )) && s0 == LobbySide::Host && host_first == (g.turn == Player::One)
                        && (match game_type {
                        GameType::Registered(_, _, joined_id) => host_opp matches Some(u) && u@
                            == joined_id@,
                        GameType::Anonymous(_) => host_opp is None,
                    }))
                    &&& (r[1] matches LobbyEffect::ToSession(s1, ServerMessage::GameStart(
                        joiner_first,
                        joiner_opp,
                    )) && s1 == LobbySide::Joiner && joiner_first == (g.turn == Player::Two)
                        && (match game_type {
                        GameType::Registered(_, host_id, _) => joiner_opp matches Some(u) && u@
                            == host_id@,
                        GameType::Anonymous(_) => joiner_opp is None,
                    }))
                }
            },
            _ => self.state == pre.state && r.len() == 0,
        }
    }

    fn game_start(&mut self) -> (r: Vec<LobbyEffect>)
        requires
            lobby_wf(*old(self)),
        ensures
            lobby_wf(*final(self)),
            final(self).game_id == old(self).game_id,
            final(self).last_activity_at == old(self).last_activity_at,
            final(self).ensures_game_start(*old(self), r@),
    {
        let mut r: Vec<LobbyEffect> = Vec::new();
        match &mut self.state {
            LobbyState::TwoPlayers { game_oid: _, game_type } => {
                let mut host_opp: Option<String> = None;
                let mut joiner_opp: Option<String> = None;
                let game = match game_type {
                    GameType::Registered(g, host_id, joined_id) => {
                        host_opp = Some(joined_id.to_string());
                        joiner_opp = Some(host_id.to_string());
                        g
                    },
                    GameType::Anonymous(g) => g,
                };
                game.reset();
                let host_first = match game.turn {
                    Player::One => true,
                    Player::Two => false,
                };
                r.push(LobbyEffect::ToSession(
                    LobbySide::Host,
                    ServerMessage::GameStart(host_first, host_opp),
                ));
                r.push(LobbyEffect::ToSession(
                    LobbySide::Joiner,
                    ServerMessage::GameStart(!host_first, joiner_opp),
                ));
            },
            _ => {},
        }
        r
    }

    /// The host answered the ready ping: the pairing becomes a game, both
    /// sides hear of each other, and the first `GameStart` is scheduled.
    /// The game is ranked exactly when both sides are logged in.
    pub open spec fn ensures_ready_pong(self, pre: Lobby, fresh_oid: GameOId, r: Seq<
        LobbyEffect,
    >) -> bool {
        match pre.state {
            LobbyState::TwoPlayersWaitingForPong { host_uid, joined_uid } => {
                let ranked = host_uid is Some && joined_uid is Some;
                &&& self.state matches LobbyState::TwoPlayers { game_oid, game_type }
                    && game_oid == fresh_oid && game_type.is_registered() == ranked
                    && game_type.game().winner is None && game_type.game().board()
                    == crate::board::empty_board() && (match game_type {
                    GameType::Registered(_, h, j) => {
                        &&& host_uid matches Some(hu) && h@ == hu@
                        &&& joined_uid matches Some(ju) && j@ == ju@
                    },
                    GameType::Anonymous(_) => true,
                })
                &&& r =~= seq![
                    LobbyEffect::CancelReadyTimeout,
                    LobbyEffect::ReadyResponseToJoiner,
                    LobbyEffect::ToSession(LobbySide::Host, ServerMessage::OpponentJoining),
                    LobbyEffect::ToSession(LobbySide::Joiner, ServerMessage::OpponentJoining),
                    (LobbyEffect::LogGameStart { oid: fresh_oid, ranked }),
                    LobbyEffect::ScheduleGameStart,
                ]
            },
            _ => self.state == pre.state && r.len() == 0,
        }
    }

    fn ready_pong(&mut self, fresh_oid: GameOId, now_ms: u64) -> (r: Vec<LobbyEffect>)
        requires
            lobby_wf(*old(self)),
        ensures
            lobby_wf(*final(self)),
            final(self).game_id == old(self).game_id,
            final(self).ensures_ready_pong(*old(self), fresh_oid, r@),
    {
        let mut r: Vec<LobbyEffect> = Vec::new();
        match &self.state {
            LobbyState::TwoPlayersWaitingForPong { host_uid, joined_uid } => {
                let ranked = match (host_uid, joined_uid) {
                    (Some(_), Some(_)) => true,
                    _ => false,
                };
                let game = GameInfo::new();
                let game_type = match (host_uid, joined_uid) {
                    (Some(h), Some(j)) => GameType::Registered(
                        game,
                        h.duplicate(),
                        j.duplicate(),
                    ),
                    _ => GameType::Anonymous(game),
                };
                self.state = LobbyState::TwoPlayers { game_oid: fresh_oid, game_type };
                r.push(LobbyEffect::CancelReadyTimeout);
                r.push(LobbyEffect::ReadyResponseToJoiner);
                r.push(LobbyEffect::ToSession(
                    LobbySide::Host,
                    ServerMessage::OpponentJoining,
                ));
                r.push(LobbyEffect::ToSession(
                    LobbySide::Joiner,
                    ServerMessage::OpponentJoining,
                ));
                r.push(LobbyEffect::LogGameStart { oid: fresh_oid, ranked });
                r.push(LobbyEffect::ScheduleGameStart);
            },
            _ => {},
        }
        r
    }

    /// A second player joined a waiting lobby: the host is pinged and the
    /// pong timeout armed.  Any other phase turns the newcomer away: the
    /// lobby is already full.
    pub open spec fn ensures_player_joined(self, pre: Lobby, maybe_uid: Option<UserId>, r: Seq<
        LobbyEffect,
    >) -> bool {
        match pre.state {
            LobbyState::OnePlayer { host_uid } => {
                &&& self.state matches LobbyState::TwoPlayersWaitingForPong {
                    host_uid: h2,
                    joined_uid: j2,
                } && crate::users::opt_uid_eq(h2, host_uid) && j2 == maybe_uid
                &&& r =~= seq![
                    LobbyEffect::ToSession(LobbySide::Host, ServerMessage::ReadyForGamePing),
                    LobbyEffect::ArmReadyTimeout,
                ]
            },
            _ => {
                &&& self.state == pre.state
                &&& r =~= seq![
                    LobbyEffect::ToJoiningSession(ServerMessage::Error(
                        Some(SrvMsgError::LobbyFull),
                    )),
                ]
            },
        }
    }

    fn player_joined(&mut self, maybe_uid: Option<UserId>, now_ms: u64) -> (r: Vec<LobbyEffect>)
        requires
            lobby_wf(*old(self)),
        ensures
            lobby_wf(*final(self)),
            final(self).game_id == old(self).game_id,
            final(self).ensures_player_joined(*old(self), maybe_uid, r@),
    {
        let mut r: Vec<LobbyEffect> = Vec::new();
        let host = match &self.state {
            LobbyState::OnePlayer { host_uid } => {
                match host_uid {
                    Some(h) => Some(Some(h.duplicate())),
                    None => Some(None),
                }
            },
            _ => None,
        };
        match host {
            Some(host_uid) => {
                self.state = LobbyState::TwoPlayersWaitingForPong {
                    host_uid,
                    joined_uid: maybe_uid,
                };
                r.push(LobbyEffect::ToSession(
                    LobbySide::Host,
                    ServerMessage::ReadyForGamePing,
                ));
                r.push(LobbyEffect::ArmReadyTimeout);
            },
            None => {
                r.push(LobbyEffect::ToJoiningSession(ServerMessage::Error(
                    Some(SrvMsgError::LobbyFull),
                )));
            },
        }
        r
    }

    /// The farewell when the lobby dies: every attached member is reset and
    /// told the lobby closes.
    pub fn stopping(&self) -> (r: Vec<LobbyEffect>)
        ensures
            match self.state {
                LobbyState::OnePlayer { .. } => r@ =~= seq![
                    LobbyEffect::ResetSession(LobbySide::Host),
                    LobbyEffect::ToSession(LobbySide::Host, ServerMessage::LobbyClosing),
                ],
                _ => r@ =~= seq![
                    LobbyEffect::ResetSession(LobbySide::Host),
                    LobbyEffect::ToSession(LobbySide::Host, ServerMessage::LobbyClosing),
                    LobbyEffect::ResetSession(LobbySide::Joiner),
                    LobbyEffect::ToSession(LobbySide::Joiner, ServerMessage::LobbyClosing),
                ],
            },
    {
        let mut r: Vec<LobbyEffect> = Vec::new();
        r.push(LobbyEffect::ResetSession(LobbySide::Host));
        r.push(LobbyEffect::ToSession(LobbySide::Host, ServerMessage::LobbyClosing));
        match &self.state {
            LobbyState::OnePlayer { .. } => {},
            _ => {
                r.push(LobbyEffect::ResetSession(LobbySide::Joiner));
                r.push(LobbyEffect::ToSession(LobbySide::Joiner, ServerMessage::LobbyClosing));
            },
        }
        r
    }

    /// The idle watchdog: a lobby without activity for half an hour closes.
    pub fn tick(&self, now_ms: u64) -> (r: Vec<LobbyEffect>)
        ensures
            (now_ms >= self.last_activity_at && now_ms - self.last_activity_at
                > LOBBY_TIMEOUT_S * 1000) ==> r@ =~= seq![LobbyEffect::Stop],
            !(now_ms >= self.last_activity_at && now_ms - self.last_activity_at
                > LOBBY_TIMEOUT_S * 1000) ==> r@.len() == 0,
    {
        let mut r: Vec<LobbyEffect> = Vec::new();
        if now_ms >= self.last_activity_at && now_ms - self.last_activity_at > LOBBY_TIMEOUT_S
            * 1000 {
            r.push(LobbyEffect::Stop);
        }
        r
    }

    /// The ready-pong timeout fired: a still-waiting pairing is abandoned
    /// and the joiner learns the lobby is gone.
    pub fn ready_timeout(&self) -> (r: Vec<LobbyEffect>)
        ensures
            match self.state {
                LobbyState::TwoPlayersWaitingForPong { .. } => r@ =~= seq![
                    LobbyEffect::ToSession(
                        LobbySide::Joiner,
                        ServerMessage::Error(Some(SrvMsgError::LobbyNotFound)),
                    ),
                    LobbyEffect::Stop,
                ],
                _ => r@.len() == 0,
            },
    {
        let mut r: Vec<LobbyEffect> = Vec::new();
        match &self.state {
            LobbyState::TwoPlayersWaitingForPong { .. } => {
                r.push(LobbyEffect::ToSession(
                    LobbySide::Joiner,
                    ServerMessage::Error(Some(SrvMsgError::LobbyNotFound)),
                ));
                r.push(LobbyEffect::Stop);
            },
            _ => {},
        }
        r
    }
}

/// Turn alternation, lifted to the lobby: two successive accepted moves are
/// by opposite sides.
pub proof fn lemma_lobby_turn_alternation(
    g0: GameInfo,
    g1: GameInfo,
    g2: GameInfo,
    c1: int,
    c2: int,
    p1: Player,
    p2: Player,
)
    requires
        place_transition(g0, g1, c1, p1),
        place_transition(g1, g2, c2, p2),
    ensures
        p2 == p1.spec_other(),
{
}

/// A rematch starts a new game only when the winner record already carries
/// the other player's vote: both sides must have asked since the game ended.
pub proof fn lemma_rematch_requires_both(pre: Lobby, sender: Player)
    requires
        rematch_completes(pre, sender),
    ensures
        pre.state matches LobbyState::TwoPlayers { game_oid: _, game_type } && (
        game_type.game().winner matches Some(wi) && wi.requesting_rematch == Some(
            sender.spec_other(),
        )),
{
    match pre.state {
        LobbyState::TwoPlayers { game_oid: _, game_type } => {
            match game_type.game().winner {
                Some(wi) => {
                    match wi.requesting_rematch {
                        Some(p) => {
                            assert(p != sender);
                            crate::player::lemma_other_involutive(sender);
                            if p == Player::One && sender == Player::Two {
                            } else if p == Player::Two && sender == Player::One {
                            }
                        },
                        None => {},
                    }
                },
                None => {},
            }
        },
        _ => {},
    }
}

} // verus!

//! The per-client session: protocol dispatcher and login/lobby membership
//! state machine.  It turns each inbound logical message into effects for
//! the adapter, the lobby, the registries and the user directory.

use vstd::prelude::*;
use crate::game_id::GameId;
use crate::lobby::{ClientLobbyMessage, PlayerLeaveReason};
use crate::lobby_mgr::LobbyKind;
use crate::player::Player;
use crate::protocol::{PlayerMessage, ServerMessage, SrvMsgError};
use crate::users::{PublicUserMe, UserId};

verus! {

/// A non-owning reference to a lobby, resolved by the surrounding program.
pub type LobbyHandle = u64;

/// Where the session stands with respect to matchmaking.
pub enum ClientLobbyState {
    Idle,
    /// Waiting for the host's ready pong before the game exists.
    InLobbyWaitingForHost { player: Player, lobby: LobbyHandle },
    InLobby { player: Player, lobby: LobbyHandle },
}

/// What the session asks its surroundings to do.
pub enum SessionEffect {
    /// Send a server message through this session's adapter.
    ToAdapter(ServerMessage),
    /// Forward a member message to the given lobby.
    ToLobby(Player, LobbyHandle, ClientLobbyMessage),
    /// Tell the lobby the ready pong arrived.
    ReadyPongToLobby(LobbyHandle),
    /// Ask the lobby registry for a new lobby.
    AskNewLobby(LobbyKind, Option<UserId>),
    /// Ask the lobby registry to join the lobby with this id.
    AskJoinLobby(GameId, Option<UserId>),
    /// Ask the user directory to attach the account behind this token.
    AskLogin(String),
    /// Tell the user directory this account stopped playing here.
    StopPlaying(UserId),
    /// Route a battle request: this user asks that user to play.
    BattleReqToUserMgr(UserId, UserId),
    /// Hand a chat message to the connection registry for global fan-out.
    GlobalChat(String),
    GlobalChatRead,
    /// The session ends.
    Stop,
}

/// The reply the lobby registry gives to a lobby request.
pub enum LobbyRequestOutcome {
    /// A place was granted; `waiting` when the ready handshake is pending.
    Granted { player: Player, lobby: LobbyHandle, waiting: bool },
    Refused(Option<SrvMsgError>),
    /// The registry could not be reached.
    Failed,
}

/// The reply the user directory gives to a login.
pub enum LoginOutcome {
    Granted(PublicUserMe),
    Refused(SrvMsgError),
    Failed,
}

/// Control messages from the registries.
pub enum ClientStateMessage {
    /// Return to idle; sent by a closing lobby.
    Reset,
    /// The underlying adapter closed.
    Close,
    /// A battle request of this session was set up: enter its lobby as host.
    BattleReqJoinLobby(LobbyHandle),
    /// connected count, someone waiting for a public match
    CurrentServerState(usize, bool),
}

/// One client session.
pub struct ClientState {
    /// The transport session token.
    pub id: String,
    pub lobby_state: ClientLobbyState,
    pub user: Option<PublicUserMe>,
}

impl ClientState {
    pub open spec fn logged_in(self) -> bool {
        self.user is Some
    }

    pub open spec fn spec_uid(self) -> Option<UserId> {
        match self.user {
            Some(u) => Some(u.id),
            None => None,
        }
    }

    pub fn new(id: String) -> (r: ClientState)
        ensures
            r.id@ == id@,
            r.lobby_state is Idle,
            r.user is None,
    {
        ClientState { id, lobby_state: ClientLobbyState::Idle, user: None }
    }

    fn current_uid(&self) -> (r: Option<UserId>)
        ensures
            crate::users::opt_uid_eq(r, self.spec_uid()),
    {
        match &self.user {
            Some(u) => Some(u.id.duplicate()),
            None => None,
        }
    }

    /// Dispatches one logical message from the peer.
    ///
    /// Guard violations answer with an error and change nothing: a move or
    /// rematch outside a lobby is `NotInLobby`, a lobby request inside one
    /// is `AlreadyInLobby`, a battle request without a login is
    /// `NotLoggedIn`.
    pub fn handle_player_message(&mut self, msg: PlayerMessage) -> (r: Vec<SessionEffect>)
        ensures
            final(self).id@ == old(self).id@,
            final(self).user == old(self).user,
            match msg {
                PlayerMessage::Ping => final(self).lobby_state == old(self).lobby_state && r@
                    =~= seq![SessionEffect::ToAdapter(ServerMessage::Pong)],
                PlayerMessage::PlaceChip(col) => final(self).lobby_state == old(
                    self,
                ).lobby_state && (match old(self).lobby_state {
                    ClientLobbyState::InLobby { player, lobby } => r@ =~= seq![
                        SessionEffect::ToLobby(
                            player,
                            lobby,
                            ClientLobbyMessage::PlaceChip(col),
                        ),
                    ],
                    _ => r@ =~= seq![
                        SessionEffect::ToAdapter(ServerMessage::Error(
                            Some(SrvMsgError::NotInLobby),
                        )),
                    ],
                }),
                PlayerMessage::PlayAgainRequest => final(self).lobby_state == old(
                    self,
                ).lobby_state && (match old(self).lobby_state {
                    ClientLobbyState::InLobby { player, lobby } => r@ =~= seq![
                        SessionEffect::ToLobby(
                            player,
                            lobby,
                            ClientLobbyMessage::PlayAgainRequest,
                        ),
                    ],
                    _ => r@ =~= seq![
                        SessionEffect::ToAdapter(ServerMessage::Error(
                            Some(SrvMsgError::NotInLobby),
                        )),
                    ],
                }),
                PlayerMessage::Leaving => final(self).lobby_state is Idle && (match old(
                    self,
                ).lobby_state {
                    ClientLobbyState::InLobby { player, lobby } => r@ =~= seq![
                        SessionEffect::ToLobby(
                            player,
                            lobby,
                            (ClientLobbyMessage::PlayerLeaving {
                                reason: PlayerLeaveReason::Leave,
                            }),
                        ),
                    ],
                    _ => r@ =~= seq![
                        SessionEffect::ToAdapter(ServerMessage::Error(
                            Some(SrvMsgError::NotInLobby),
                        )),
                    ],
                }),
                PlayerMessage::LobbyRequest(kind) => final(self).lobby_state == old(
                    self,
                ).lobby_state && (match old(self).lobby_state {
                    ClientLobbyState::Idle => r@.len() == 1 && (r@[0] matches
                        SessionEffect::AskNewLobby(k, uid) && k == kind
                        && crate::users::opt_uid_eq(uid, old(self).spec_uid())),
                    _ => r@ =~= seq![
                        SessionEffect::ToAdapter(ServerMessage::Error(
                            Some(SrvMsgError::AlreadyInLobby),
                        )),
                    ],
                }),
                PlayerMessage::LobbyJoin(id) => final(self).lobby_state == old(
                    self,
                ).lobby_state && (match old(self).lobby_state {
                    ClientLobbyState::Idle => r@.len() == 1 && (r@[0] matches
                        SessionEffect::AskJoinLobby(g, uid) && g == id
                        && crate::users::opt_uid_eq(uid, old(self).spec_uid())),
                    _ => r@ =~= seq![
                        SessionEffect::ToAdapter(ServerMessage::Error(
                            Some(SrvMsgError::AlreadyInLobby),
                        )),
                    ],
                }),
                PlayerMessage::Login(token) => final(self).lobby_state == old(
                    self,
                ).lobby_state && (match old(self).lobby_state {
                    ClientLobbyState::InLobby { .. } => r@ =~= seq![
                        SessionEffect::ToAdapter(ServerMessage::Error(
                            Some(SrvMsgError::AlreadyInLobby),
                        )),
                    ],
                    _ => {
                        if old(self).logged_in() {
                            &&& r@.len() == 2
                            &&& (r@[0] matches SessionEffect::StopPlaying(u)
                                && crate::users::opt_uid_eq(Some(u), old(self).spec_uid()))
                            &&& (r@[1] matches SessionEffect::AskLogin(t) && t@ == token@)
                        } else {
                            r@.len() == 1 && (r@[0] matches SessionEffect::AskLogin(t) && t@
                                == token@)
                        }
                    },
                }),
                PlayerMessage::Logout => final(self).lobby_state == old(self).lobby_state && (
                if old(self).logged_in() {
                    r@.len() == 1 && (r@[0] matches SessionEffect::StopPlaying(u)
                        && crate::users::opt_uid_eq(Some(u), old(self).spec_uid()))
                } else {
                    r@.len() == 0
                }),
                PlayerMessage::BattleReq(receiver) => final(self).lobby_state == old(
                    self,
                ).lobby_state && (match old(self).lobby_state {
                    ClientLobbyState::Idle => {
                        if old(self).logged_in() {
                            r@.len() == 1 && (r@[0] matches SessionEffect::BattleReqToUserMgr(
                                s,
                                t,
                            ) && crate::users::opt_uid_eq(Some(s), old(self).spec_uid())
                                && t@ == receiver@)
                        } else {
                            r@ =~= seq![
                                SessionEffect::ToAdapter(ServerMessage::Error(
                                    Some(SrvMsgError::NotLoggedIn),
                                )),
                            ]
                        }
                    },
                    _ => r@ =~= seq![
                        SessionEffect::ToAdapter(ServerMessage::Error(
                            Some(SrvMsgError::AlreadyInLobby),
                        )),
                    ],
                }),
                PlayerMessage::ChatMessage(text) => final(self).lobby_state == old(
                    self,
                ).lobby_state && r@.len() == 2 && r@[1] == (SessionEffect::ToAdapter(
                    ServerMessage::Okay,
                )) && (match old(self).lobby_state {
                    ClientLobbyState::InLobby { player, lobby } => r@[0] matches
                        SessionEffect::ToLobby(p, l, ClientLobbyMessage::ChatMessage(t, name))
                        && p == player && l == lobby && t@ == text@ && (match (
                        name,
                        old(self).user,
                    ) {
                        (Some(n), Some(u)) => n@ == u.username@,
                        (None, None) => true,
                        _ => false,
                    }),
                    _ => r@[0] matches SessionEffect::GlobalChat(t) && t@ == text@,
                }),
                PlayerMessage::ChatRead => final(self).lobby_state == old(self).lobby_state
                    && (match old(self).lobby_state {
                    ClientLobbyState::InLobby { player, lobby } => r@ =~= seq![
                        SessionEffect::ToLobby(player, lobby, ClientLobbyMessage::ChatRead),
                    ],
                    _ => r@ =~= seq![SessionEffect::GlobalChatRead],
                }),
                PlayerMessage::ReadyForGamePong => final(self).lobby_state == old(
                    self,
                ).lobby_state && (match old(self).lobby_state {
                    ClientLobbyState::InLobby { player: _, lobby } => r@ =~= seq![
                        SessionEffect::ReadyPongToLobby(lobby),
                    ],
                    _ => r@.len() == 0,
                }),
            },
    {
        let mut r: Vec<SessionEffect> = Vec::new();
        match msg {
            PlayerMessage::Ping => {
                r.push(SessionEffect::ToAdapter(ServerMessage::Pong));
            },
            PlayerMessage::PlaceChip(col) => {
                match &self.lobby_state {
                    ClientLobbyState::InLobby { player, lobby } => {
                        r.push(SessionEffect::ToLobby(
                            *player,
                            *lobby,
                            ClientLobbyMessage::PlaceChip(col),
                        ));
                    },
                    _ => {
                        r.push(SessionEffect::ToAdapter(ServerMessage::Error(
                            Some(SrvMsgError::NotInLobby),
                        )));
                    },
                }
            },
            PlayerMessage::PlayAgainRequest => {
                match &self.lobby_state {
                    ClientLobbyState::InLobby { player, lobby } => {
                        r.push(SessionEffect::ToLobby(
                            *player,
                            *lobby,
                            ClientLobbyMessage::PlayAgainRequest,
                        ));
                    },
                    _ => {
                        r.push(SessionEffect::ToAdapter(ServerMessage::Error(
                            Some(SrvMsgError::NotInLobby),
                        )));
                    },
                }
            },
            PlayerMessage::Leaving => {
                match &self.lobby_state {
                    ClientLobbyState::InLobby { player, lobby } => {
                        r.push(SessionEffect::ToLobby(
                            *player,
                            *lobby,
                            ClientLobbyMessage::PlayerLeaving {
                                reason: PlayerLeaveReason::Leave,
                            },
                        ));
                    },
                    _ => {
                        r.push(SessionEffect::ToAdapter(ServerMessage::Error(
                            Some(SrvMsgError::NotInLobby),
                        )));
                    },
                }
                self.lobby_state = ClientLobbyState::Idle;
            },
            PlayerMessage::LobbyRequest(kind) => {
                match &self.lobby_state {
                    ClientLobbyState::Idle => {
                        let uid = self.current_uid();
                        r.push(SessionEffect::AskNewLobby(kind, uid));
                    },
                    _ => {
                        r.push(SessionEffect::ToAdapter(ServerMessage::Error(
                            Some(SrvMsgError::AlreadyInLobby),
                        )));
                    },
                }
            },
            PlayerMessage::LobbyJoin(id) => {
                match &self.lobby_state {
                    ClientLobbyState::Idle => {
                        let uid = self.current_uid();
                        r.push(SessionEffect::AskJoinLobby(id, uid));
                    },
                    _ => {
                        r.push(SessionEffect::ToAdapter(ServerMessage::Error(
                            Some(SrvMsgError::AlreadyInLobby),
                        )));
                    },
                }
            },
            PlayerMessage::Login(token) => {
                match &self.lobby_state {
                    ClientLobbyState::InLobby { .. } => {
                        r.push(SessionEffect::ToAdapter(ServerMessage::Error(
                            Some(SrvMsgError::AlreadyInLobby),
                        )));
                    },
                    _ => {
                        match self.current_uid() {
                            Some(uid) => {
                                r.push(SessionEffect::StopPlaying(uid));
                            },
                            None => {},
                        }
                        r.push(SessionEffect::AskLogin(token));
                    },
                }
            },
            PlayerMessage::Logout => {
                match self.current_uid() {
                    Some(uid) => {
                        r.push(SessionEffect::StopPlaying(uid));
                    },
                    None => {},
                }
            },
            PlayerMessage::BattleReq(receiver) => {
                match &self.lobby_state {
                    ClientLobbyState::Idle => {
                        match self.current_uid() {
                            Some(uid) => {
                                r.push(SessionEffect::BattleReqToUserMgr(uid, receiver));
                            },
                            None => {
                                r.push(SessionEffect::ToAdapter(ServerMessage::Error(
                                    Some(SrvMsgError::NotLoggedIn),
                                )));
                            },
                        }
                    },
                    _ => {
                        r.push(SessionEffect::ToAdapter(ServerMessage::Error(
                            Some(SrvMsgError::AlreadyInLobby),
                        )));
                    },
                }
            },
            PlayerMessage::ChatMessage(text) => {
                match &self.lobby_state {
                    ClientLobbyState::InLobby { player, lobby } => {
                        let name = match &self.user {
                            Some(u) => Some(u.username.clone()),
                            None => None,
                        };
                        r.push(SessionEffect::ToLobby(
                            *player,
                            *lobby,
                            ClientLobbyMessage::ChatMessage(text, name),
                        ));
                    },
                    _ => {
                        r.push(SessionEffect::GlobalChat(text));
                    },
                }
                r.push(SessionEffect::ToAdapter(ServerMessage::Okay));
            },
            PlayerMessage::ChatRead => {
                match &self.lobby_state {
                    ClientLobbyState::InLobby { player, lobby } => {
                        r.push(SessionEffect::ToLobby(
                            *player,
                            *lobby,
                            ClientLobbyMessage::ChatRead,
                        ));
                    },
                    _ => {
                        r.push(SessionEffect::GlobalChatRead);
                    },
                }
            },
            PlayerMessage::ReadyForGamePong => {
                match &self.lobby_state {
                    ClientLobbyState::InLobby { player: _, lobby } => {
                        r.push(SessionEffect::ReadyPongToLobby(*lobby));
                    },
                    _ => {},
                }
            },
        }
        r
    }

    /// Applies the registry's answer to an earlier lobby request.
    pub fn received_lobby_request_response(&mut self, res: LobbyRequestOutcome) -> (r: Vec<
        SessionEffect,
    >)
        ensures
            final(self).id@ == old(self).id@,
            final(self).user == old(self).user,
            match res {
                LobbyRequestOutcome::Granted { player, lobby, waiting } => {
                    if waiting {
                        &&& final(self).lobby_state matches
                            ClientLobbyState::InLobbyWaitingForHost { player: p, lobby: l }
                            && p == player && l == lobby
                        &&& r@.len() == 0
                    } else {
                        &&& final(self).lobby_state matches ClientLobbyState::InLobby {
                            player: p,
                            lobby: l,
                        } && p == player && l == lobby
                        &&& r@ =~= seq![SessionEffect::ToAdapter(ServerMessage::Okay)]
                    }
                },
                LobbyRequestOutcome::Refused(e) => final(self).lobby_state == old(
                    self,
                ).lobby_state && r@ =~= seq![
                    SessionEffect::ToAdapter(ServerMessage::Error(e)),
                ],
                LobbyRequestOutcome::Failed => final(self).lobby_state == old(self).lobby_state
                    && r@ =~= seq![
                    SessionEffect::ToAdapter(ServerMessage::Error(
                        Some(SrvMsgError::Internal),
                    )),
                ],
            },
    {
        let mut r: Vec<SessionEffect> = Vec::new();
        match res {
            LobbyRequestOutcome::Granted { player, lobby, waiting } => {
                if waiting {
                    self.lobby_state = ClientLobbyState::InLobbyWaitingForHost {
                        player,
                        lobby,
                    };
                } else {
                    self.lobby_state = ClientLobbyState::InLobby { player, lobby };
                    r.push(SessionEffect::ToAdapter(ServerMessage::Okay));
                }
            },
            LobbyRequestOutcome::Refused(e) => {
                r.push(SessionEffect::ToAdapter(ServerMessage::Error(e)));
            },
            LobbyRequestOutcome::Failed => {
                r.push(SessionEffect::ToAdapter(ServerMessage::Error(
                    Some(SrvMsgError::Internal),
                )));
            },
        }
        r
    }

    /// The armed host-wait check: a session still waiting for the host's
    /// pong reports the lobby as gone.
    pub fn host_wait_timeout(&self) -> (r: Vec<SessionEffect>)
        ensures
            match self.lobby_state {
                ClientLobbyState::InLobbyWaitingForHost { .. } => r@ =~= seq![
                    SessionEffect::ToAdapter(ServerMessage::Error(
                        Some(SrvMsgError::LobbyNotFound),
                    )),
                ],
                _ => r@.len() == 0,
            },
    {
        let mut r: Vec<SessionEffect> = Vec::new();
        match &self.lobby_state {
            ClientLobbyState::InLobbyWaitingForHost { .. } => {
                r.push(SessionEffect::ToAdapter(ServerMessage::Error(
                    Some(SrvMsgError::LobbyNotFound),
                )));
            },
            _ => {},
        }
        r
    }

    /// Applies the user directory's answer to an earlier login.
    pub fn received_login_response(&mut self, res: LoginOutcome) -> (r: Vec<SessionEffect>)
        ensures
            final(self).id@ == old(self).id@,
            final(self).lobby_state == old(self).lobby_state,
            match res {
                LoginOutcome::Granted(user) => final(self).user == Some(user) && r@ =~= seq![
                    SessionEffect::ToAdapter(ServerMessage::Okay),
                ],
                LoginOutcome::Refused(e) => final(self).user == old(self).user && r@ =~= seq![
                    SessionEffect::ToAdapter(ServerMessage::Error(Some(e))),
                ],
                LoginOutcome::Failed => final(self).user == old(self).user && r@ =~= seq![
                    SessionEffect::ToAdapter(ServerMessage::Error(
                        Some(SrvMsgError::Internal),
                    )),
                ],
            },
    {
        let mut r: Vec<SessionEffect> = Vec::new();
        match res {
            LoginOutcome::Granted(user) => {
                self.user = Some(user);
                r.push(SessionEffect::ToAdapter(ServerMessage::Okay));
            },
            LoginOutcome::Refused(e) => {
                r.push(SessionEffect::ToAdapter(ServerMessage::Error(Some(e))));
            },
            LoginOutcome::Failed => {
                r.push(SessionEffect::ToAdapter(ServerMessage::Error(
                    Some(SrvMsgError::Internal),
                )));
            },
        }
        r
    }

    /// The ready handshake completed: a waiting joiner becomes a member.
    pub fn ready_response(&mut self)
        ensures
            final(self).id@ == old(self).id@,
            final(self).user == old(self).user,
            match old(self).lobby_state {
                ClientLobbyState::InLobbyWaitingForHost { player, lobby } => (
                final(self).lobby_state matches ClientLobbyState::InLobby { player: p, lobby: l }
                    && p == player && l == lobby),
                _ => final(self).lobby_state == old(self).lobby_state,
            },
    {
        match &self.lobby_state {
            ClientLobbyState::InLobbyWaitingForHost { player, lobby } => {
                self.lobby_state = ClientLobbyState::InLobby {
                    player: *player,
                    lobby: *lobby,
                };
            },
            _ => {},
        }
    }

    /// Handles one control message from the registries.
    pub fn handle_control_message(&mut self, msg: ClientStateMessage) -> (r: Vec<SessionEffect>)
        ensures
            final(self).id@ == old(self).id@,
            final(self).user == old(self).user,
            match msg {
                ClientStateMessage::Reset => final(self).lobby_state is Idle && r@.len() == 0,
                // the lobby hears of the disconnect first, a logged-in
                // user is reported as no longer playing, then the session
                // stops
                ClientStateMessage::Close => final(self).lobby_state is Idle && (match old(
                    self,
                ).lobby_state {
                    ClientLobbyState::InLobby { player, lobby } => if old(self).logged_in() {
                        &&& r@.len() == 3
                        &&& r@[0] == (SessionEffect::ToLobby(
                            player,
                            lobby,
                            (ClientLobbyMessage::PlayerLeaving {
                                reason: PlayerLeaveReason::Disconnect,
                            }),
                        ))
                        &&& (r@[1] matches SessionEffect::StopPlaying(u)
                            && crate::users::opt_uid_eq(Some(u), old(self).spec_uid()))
                        &&& r@[2] == SessionEffect::Stop
                    } else {
                        r@ =~= seq![
                            SessionEffect::ToLobby(
                                player,
                                lobby,
                                (ClientLobbyMessage::PlayerLeaving {
                                    reason: PlayerLeaveReason::Disconnect,
                                }),
                            ),
                            SessionEffect::Stop,
                        ]
                    },
                    _ => if old(self).logged_in() {
                        &&& r@.len() == 2
                        &&& (r@[0] matches SessionEffect::StopPlaying(u)
                            && crate::users::opt_uid_eq(Some(u), old(self).spec_uid()))
                        &&& r@[1] == SessionEffect::Stop
                    } else {
                        r@ =~= seq![SessionEffect::Stop]
                    },
                }),
                ClientStateMessage::BattleReqJoinLobby(lobby) => (
                final(self).lobby_state matches ClientLobbyState::InLobby { player, lobby: l }
                    && player == Player::One && l == lobby) && r@ =~= seq![
                    SessionEffect::ToAdapter(ServerMessage::Okay),
                ],
                ClientStateMessage::CurrentServerState(n, waiting) => final(self).lobby_state
                    == old(self).lobby_state && r@ =~= seq![
                    SessionEffect::ToAdapter(ServerMessage::CurrentServerState(n, waiting)),
                ],
            },
    {
        let mut r: Vec<SessionEffect> = Vec::new();
        match msg {
            ClientStateMessage::Reset => {
                self.lobby_state = ClientLobbyState::Idle;
            },
            ClientStateMessage::Close => {
                match &self.lobby_state {
                    ClientLobbyState::InLobby { player, lobby } => {
                        r.push(SessionEffect::ToLobby(
                            *player,
                            *lobby,
                            ClientLobbyMessage::PlayerLeaving {
                                reason: PlayerLeaveReason::Disconnect,
                            },
                        ));
                    },
                    _ => {},
                }
                match self.current_uid() {
                    Some(uid) => {
                        r.push(SessionEffect::StopPlaying(uid));
                    },
                    None => {},
                }
                self.lobby_state = ClientLobbyState::Idle;
                r.push(SessionEffect::Stop);
            },
            ClientStateMessage::BattleReqJoinLobby(lobby) => {
                self.lobby_state = ClientLobbyState::InLobby { player: Player::One, lobby };
                r.push(SessionEffect::ToAdapter(ServerMessage::Okay));
            },
            ClientStateMessage::CurrentServerState(n, waiting) => {
                r.push(SessionEffect::ToAdapter(ServerMessage::CurrentServerState(n, waiting)));
            },
        }
        r
    }
}

} // verus!

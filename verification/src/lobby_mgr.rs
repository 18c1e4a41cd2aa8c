//! Matchmaking: the single open public lobby, the private lobbies keyed by
//! game id, and the closed lobbies whose ids stay reserved until they die.

use vstd::prelude::*;
use crate::game_id::GameId;
use crate::lobby::Lobby;
use crate::protocol::{ServerMessage, SrvMsgError};
use crate::session::{LobbyHandle, LobbyRequestOutcome};
use crate::users::{PlayedGameInfo, UserId};

verus! {

/// How a lobby was requested: `Public` lobbies are matched automatically,
/// `Private` lobbies are joined by id.
#[derive(Clone, Copy, Debug, PartialEq, Eq, Structural)]
pub enum LobbyKind {
    Private,
    Public,
}

/// What the registry records about one lobby.
#[derive(Clone, Copy, Debug, PartialEq, Eq, Structural)]
pub struct LobbyEntry {
    pub game_id: GameId,
    pub lobby: LobbyHandle,
    pub kind: LobbyKind,
}

/// What the registry asks its surroundings to do.
pub enum RegistryEffect {
    /// Tell that lobby a second player joined.
    DeliverPlayerJoined { lobby: LobbyHandle, uid: Option<UserId> },
    /// Tell every session whether someone is waiting for a public match.
    BroadcastQueueState(bool),
    /// Put that session into the named lobby as its host.
    SessionBattleReqJoinLobby { session: u64, lobby: LobbyHandle },
    /// Deliver a server message to that session.
    SessionMessage { session: u64, msg: ServerMessage },
    /// Record a finished ranked game with the user directory.
    RecordPlayedGame(PlayedGameInfo),
}

/// A battle request routed through the registry.
pub struct BattleReq {
    pub sender_session: u64,
    pub sender_uid: UserId,
    pub receiver_session: u64,
    pub receiver_uid: UserId,
}

/// The lobby registry.
pub struct LobbyManager {
    /// The one public lobby waiting for a second player, if any.
    pub open_lobby: Option<LobbyEntry>,
    /// Joinable lobbies, keyed by game id.
    pub open_lobby_map: Vec<LobbyEntry>,
    /// Full lobbies whose ids must stay unique until they close.
    pub closed_lobby_map: Vec<LobbyEntry>,
    /// Source of lobby handles.
    pub next_handle: LobbyHandle,
}

impl LobbyManager {
    /// Game ids of lobbies that exist: pairwise distinct, within each map
    /// and across them, and distinct from the open slot's.
    pub open spec fn wf(self) -> bool {
        &&& forall|i: int, j: int|
            0 <= i < j < self.open_lobby_map@.len() ==> (#[trigger] self.open_lobby_map@[i]).game_id
                != (#[trigger] self.open_lobby_map@[j]).game_id
        &&& forall|i: int, j: int|
            0 <= i < j < self.closed_lobby_map@.len() ==> (
            #[trigger] self.closed_lobby_map@[i]).game_id
                != (#[trigger] self.closed_lobby_map@[j]).game_id
        &&& forall|i: int, j: int|
            0 <= i < self.open_lobby_map@.len() && 0 <= j < self.closed_lobby_map@.len() ==> (
            #[trigger] self.open_lobby_map@[i]).game_id != (
            #[trigger] self.closed_lobby_map@[j]).game_id
        &&& (self.open_lobby matches Some(e) ==> {
            &&& forall|i: int| 0 <= i < self.open_lobby_map@.len() ==> e.game_id != (
                #[trigger] self.open_lobby_map@[i]).game_id
            &&& forall|i: int| 0 <= i < self.closed_lobby_map@.len() ==> e.game_id != (
                #[trigger] self.closed_lobby_map@[i]).game_id
        })
    }

    pub fn new() -> (r: LobbyManager)
        ensures
            r.wf(),
            r.open_lobby is None,
            r.open_lobby_map@.len() == 0,
            r.closed_lobby_map@.len() == 0,
    {
        LobbyManager {
            open_lobby: None,
            open_lobby_map: Vec::new(),
            closed_lobby_map: Vec::new(),
            next_handle: 1,
        }
    }

    /// Every game id the registry currently holds, for collision avoidance.
    fn collect_ids(&self) -> (v: Vec<GameId>)
        ensures
            v@.len() <= 1 + self.open_lobby_map@.len() + self.closed_lobby_map@.len(),
            self.open_lobby matches Some(e) ==> v@.contains(e.game_id),
            forall|k: int| 0 <= k < self.open_lobby_map@.len() ==> v@.contains(
                (#[trigger] self.open_lobby_map@[k]).game_id,
            ),
            forall|k: int| 0 <= k < self.closed_lobby_map@.len() ==> v@.contains(
                (#[trigger] self.closed_lobby_map@[k]).game_id,
            ),
    {
        let mut v: Vec<GameId> = Vec::new();
        match &self.open_lobby {
            Some(e) => {
                v.push(e.game_id);
                proof {
                    assert(v@.last() == e.game_id);
                }
            },
            None => {},
        }
        let ghost base = v@;
        let mut k: usize = 0;
        while k < self.open_lobby_map.len()
            invariant
                k <= self.open_lobby_map@.len(),
                v@.len() == base.len() + k,
                v@.take(base.len() as int) == base,
                forall|j: int| 0 <= j < k ==> v@.contains(
                    (#[trigger] self.open_lobby_map@[j]).game_id,
                ),
            decreases self.open_lobby_map@.len() - k,
        {
            let ghost v0 = v@;
            v.push(self.open_lobby_map[k].game_id);
            proof {
                assert(v@.last() == self.open_lobby_map@[k as int].game_id);
                assert(v@.take(base.len() as int) =~= v0.take(base.len() as int));
                assert forall|j: int| 0 <= j < k + 1 implies v@.contains(
                    (#[trigger] self.open_lobby_map@[j]).game_id,
                ) by {
                    if j < k {
                        let w = choose|w: int|
                            0 <= w < v0.len() && v0[w] == self.open_lobby_map@[j].game_id;
                        assert(v@[w] == self.open_lobby_map@[j].game_id);
                    }
                }
            }
            k += 1;
        }
        let ghost mid = v@;
        let mut k2: usize = 0;
        while k2 < self.closed_lobby_map.len()
            invariant
                k2 <= self.closed_lobby_map@.len(),
                v@.len() == mid.len() + k2,
                v@.take(mid.len() as int) == mid,
                forall|j: int| 0 <= j < k2 ==> v@.contains(
                    (#[trigger] self.closed_lobby_map@[j]).game_id,
                ),
            decreases self.closed_lobby_map@.len() - k2,
        {
            let ghost v0 = v@;
            v.push(self.closed_lobby_map[k2].game_id);
            proof {
                assert(v@.last() == self.closed_lobby_map@[k2 as int].game_id);
                assert(v@.take(mid.len() as int) =~= v0.take(mid.len() as int));
                assert forall|j: int| 0 <= j < k2 + 1 implies v@.contains(
                    (#[trigger] self.closed_lobby_map@[j]).game_id,
                ) by {
                    if j < k2 {
                        let w = choose|w: int|
                            0 <= w < v0.len() && v0[w] == self.closed_lobby_map@[j].game_id;
                        assert(v@[w] == self.closed_lobby_map@[j].game_id);
                    }
                }
            }
            k2 += 1;
        }
        proof {
            if self.open_lobby is Some {
                let e = self.open_lobby->Some_0;
                let w = choose|w: int| 0 <= w < mid.len() && mid[w] == e.game_id;
                assert(v@.take(mid.len() as int)[w] == e.game_id);
                assert(v@[w] == e.game_id);
            }
            assert forall|j: int| 0 <= j < self.open_lobby_map@.len() implies v@.contains(
                (#[trigger] self.open_lobby_map@[j]).game_id,
            ) by {
                let w = choose|w: int|
                    0 <= w < mid.len() && mid[w] == self.open_lobby_map@[j].game_id;
                assert(v@.take(mid.len() as int)[w] == self.open_lobby_map@[j].game_id);
                assert(v@[w] == self.open_lobby_map@[j].game_id);
            }
        }
        v
    }

    /// Mints a fresh id and handle and records the lobby under its kind.
    fn create_lobby(
        &mut self,
        maybe_host_uid: Option<UserId>,
        kind: LobbyKind,
        now_ms: u64,
    ) -> (r: (GameId, LobbyHandle, Lobby))
        requires
            old(self).wf(),
            old(self).open_lobby_map@.len() + old(self).closed_lobby_map@.len() < 65534,
            old(self).next_handle < u64::MAX,
            kind == LobbyKind::Public ==> old(self).open_lobby is None,
        ensures
            final(self).wf(),
            final(self).closed_lobby_map@ == old(self).closed_lobby_map@,
            final(self).next_handle == old(self).next_handle + 1,
            r.1 == old(self).next_handle,
            r.2.game_id == r.0,
            r.2.state matches crate::lobby::LobbyState::OnePlayer { host_uid }
                && crate::users::opt_uid_eq(host_uid, maybe_host_uid),
            crate::lobby::lobby_wf(r.2),
            match kind {
                LobbyKind::Public => {
                    &&& final(self).open_lobby == (Some(LobbyEntry {
                        game_id: r.0,
                        lobby: r.1,
                        kind,
                    }))
                    &&& final(self).open_lobby_map@ == old(self).open_lobby_map@
                },
                LobbyKind::Private => {
                    &&& final(self).open_lobby == old(self).open_lobby
                    &&& final(self).open_lobby_map@ == old(self).open_lobby_map@.push(
                        (LobbyEntry { game_id: r.0, lobby: r.1, kind }),
                    )
                },
            },
    {
        let ids = self.collect_ids();
        let game_id = GameId::generate(&ids);
        let handle = self.next_handle;
        self.next_handle = self.next_handle + 1;
        let entry = LobbyEntry { game_id, lobby: handle, kind };
        match kind {
            LobbyKind::Public => {
                self.open_lobby = Some(entry);
            },
            LobbyKind::Private => {
                let ghost m0 = self.open_lobby_map@;
                self.open_lobby_map.push(entry);
                proof {
                    assert forall|i: int, j: int|
                        0 <= i < j < self.open_lobby_map@.len() implies (
                    #[trigger] self.open_lobby_map@[i]).game_id != (
                    #[trigger] self.open_lobby_map@[j]).game_id by {
                        if j == m0.len() {
                            assert(ids@.contains(m0[i].game_id));
                        }
                    }
                }
            },
        }
        let uid_for_lobby = match &maybe_host_uid {
            Some(u) => Some(u.duplicate()),
            None => None,
        };
        let lobby = Lobby::new(game_id, uid_for_lobby, now_ms);
        (game_id, handle, lobby)
    }

    /// A session asks for a lobby.  A public request while a public lobby
    /// waits pairs the asker, as player two, with that waiting host and
    /// reserves its id among the closed lobbies; otherwise a lobby is
    /// created and the asker hosts it.  The queue bit is broadcast whenever
    /// the open slot changes.
    pub fn new_lobby(&mut self, maybe_uid: Option<UserId>, kind: LobbyKind, now_ms: u64) -> (r: (
        LobbyRequestOutcome,
        Option<Lobby>,
        Vec<RegistryEffect>,
    ))
        requires
            old(self).wf(),
            old(self).open_lobby_map@.len() + old(self).closed_lobby_map@.len() < 65534,
            old(self).next_handle < u64::MAX,
        ensures
            final(self).wf(),
            match (kind, old(self).open_lobby) {
                (LobbyKind::Public, Some(open)) => {
                    // matchmaking fairness: the second public asker is paired
                    // with the currently waiting host
                    &&& r.0 == (LobbyRequestOutcome::Granted {
                        player: crate::player::Player::Two,
                        lobby: open.lobby,
                        waiting: true,
                    })
                    &&& r.1 is None
                    &&& final(self).open_lobby is None
                    &&& final(self).open_lobby_map@ == old(self).open_lobby_map@
                    &&& final(self).closed_lobby_map@ == old(self).closed_lobby_map@.push(open)
                    &&& r.2@.len() == 2
                    &&& (r.2@[0] matches RegistryEffect::DeliverPlayerJoined { lobby, uid }
                        && lobby == open.lobby && crate::users::opt_uid_eq(uid, maybe_uid))
                    &&& r.2@[1] == RegistryEffect::BroadcastQueueState(false)
                },
                _ => {
                    &&& (r.0 matches LobbyRequestOutcome::Granted { player, lobby, waiting }
                        && player == crate::player::Player::One && waiting == false && lobby
                        == old(self).next_handle)
                    &&& (r.1 matches Some(l) && l.game_id == (match kind {
                        LobbyKind::Public => final(self).open_lobby->Some_0.game_id,
                        LobbyKind::Private => final(self).open_lobby_map@.last().game_id,
                    }) && crate::lobby::lobby_wf(l) && (l.state matches
                        crate::lobby::LobbyState::OnePlayer { host_uid }
                        && crate::users::opt_uid_eq(host_uid, maybe_uid)))
                    &&& (match kind {
                        LobbyKind::Public => final(self).open_lobby is Some && r.2@ =~= seq![
                            RegistryEffect::BroadcastQueueState(true),
                        ],
                        LobbyKind::Private => final(self).open_lobby == old(self).open_lobby
                            && final(self).open_lobby_map@.len() == old(
                            self,
                        ).open_lobby_map@.len() + 1 && r.2@.len() == 0,
                    })
                },
            },
    {
        let mut effects: Vec<RegistryEffect> = Vec::new();
        match (kind, &self.open_lobby) {
            (LobbyKind::Public, Some(open)) => {
                let open_entry = *open;
                let uid_for_join = match &maybe_uid {
                    Some(u) => Some(u.duplicate()),
                    None => None,
                };
                effects.push(RegistryEffect::DeliverPlayerJoined {
                    lobby: open_entry.lobby,
                    uid: uid_for_join,
                });
                effects.push(RegistryEffect::BroadcastQueueState(false));
                self.open_lobby = None;
                let ghost c0 = self.closed_lobby_map@;
                self.closed_lobby_map.push(open_entry);
                proof {
                    assert forall|i: int, j: int|
                        0 <= i < j < self.closed_lobby_map@.len() implies (
                    #[trigger] self.closed_lobby_map@[i]).game_id != (
                    #[trigger] self.closed_lobby_map@[j]).game_id by {}
                }
                (
                    LobbyRequestOutcome::Granted {
                        player: crate::player::Player::Two,
                        lobby: open_entry.lobby,
                        waiting: true,
                    },
                    None,
                    effects,
                )
            },
            _ => {
                let (game_id, handle, lobby) = self.create_lobby(maybe_uid, kind, now_ms);
                match kind {
                    LobbyKind::Public => {
                        effects.push(RegistryEffect::BroadcastQueueState(true));
                    },
                    LobbyKind::Private => {},
                }
                (
                    LobbyRequestOutcome::Granted {
                        player: crate::player::Player::One,
                        lobby: handle,
                        waiting: false,
                    },
                    Some(lobby),
                    effects,
                )
            },
        }
    }

    /// A session asks to join the lobby with this id.  A joinable lobby of
    /// the right kind admits the asker as player two; an id nobody holds is
    /// `LobbyNotFound`, a kind mismatch is `LobbyFull`.
    pub fn join_lobby(&mut self, game_id: GameId, maybe_uid: Option<UserId>, kind: LobbyKind) -> (
        r: (LobbyRequestOutcome, Vec<RegistryEffect>))
        requires
            old(self).wf(),
        ensures
            final(self).wf(),
            *final(self) == *old(self),
            match spec_find(old(self).open_lobby_map@, game_id) {
                Some(entry) => if entry.kind == kind {
                    &&& r.0 == (LobbyRequestOutcome::Granted {
                        player: crate::player::Player::Two,
                        lobby: entry.lobby,
                        waiting: true,
                    })
                    &&& r.1@.len() == 1
                    &&& (r.1@[0] matches RegistryEffect::DeliverPlayerJoined { lobby, uid }
                        && lobby == entry.lobby && crate::users::opt_uid_eq(uid, maybe_uid))
                } else {
                    r.0 == LobbyRequestOutcome::Refused(Some(SrvMsgError::LobbyFull)) && r.1@.len()
                        == 0
                },
                None => r.0 == LobbyRequestOutcome::Refused(Some(SrvMsgError::LobbyNotFound))
                    && r.1@.len() == 0,
            },
    {
        let mut effects: Vec<RegistryEffect> = Vec::new();
        proof {
            assert(old(self).open_lobby_map@.skip(0) =~= old(self).open_lobby_map@);
        }
        let mut k: usize = 0;
        while k < self.open_lobby_map.len()
            invariant
                k <= self.open_lobby_map@.len(),
                *self == *old(self),
                old(self).wf(),
                effects@.len() == 0,
                spec_find(old(self).open_lobby_map@, game_id) == spec_find(
                    old(self).open_lobby_map@.skip(k as int),
                    game_id,
                ),
            decreases self.open_lobby_map@.len() - k,
        {
            proof {
                lemma_find_step(old(self).open_lobby_map@, k as int);
            }
            if self.open_lobby_map[k].game_id == game_id {
                if self.open_lobby_map[k].kind == kind {
                    let uid_for_join = match &maybe_uid {
                        Some(u) => Some(u.duplicate()),
                        None => None,
                    };
                    effects.push(RegistryEffect::DeliverPlayerJoined {
                        lobby: self.open_lobby_map[k].lobby,
                        uid: uid_for_join,
                    });
                    return (
                        LobbyRequestOutcome::Granted {
                            player: crate::player::Player::Two,
                            lobby: self.open_lobby_map[k].lobby,
                            waiting: true,
                        },
                        effects,
                    );
                } else {
                    return (
                        LobbyRequestOutcome::Refused(Some(SrvMsgError::LobbyFull)),
                        effects,
                    );
                }
            }
            k += 1;
        }
        proof {
            assert(old(self).open_lobby_map@.skip(old(self).open_lobby_map@.len() as int)
                =~= Seq::<LobbyEntry>::empty());
            assert(spec_find(Seq::<LobbyEntry>::empty(), game_id) is None);
        }
        (LobbyRequestOutcome::Refused(Some(SrvMsgError::LobbyNotFound)), effects)
    }

    /// A dying lobby says goodbye: its id leaves every map, and the queue
    /// bit is broadcast anew.
    pub fn close_lobby(&mut self, game_id: GameId) -> (r: Vec<RegistryEffect>)
        requires
            old(self).wf(),
        ensures
            final(self).wf(),
            final(self).next_handle == old(self).next_handle,
            final(self).open_lobby == (match old(self).open_lobby {
                Some(e) => if e.game_id == game_id {
                    None::<LobbyEntry>
                } else {
                    Some(e)
                },
                None => None::<LobbyEntry>,
            }),
            forall|k: int| 0 <= k < final(self).open_lobby_map@.len() ==> (
                #[trigger] final(self).open_lobby_map@[k]).game_id != game_id,
            forall|k: int| 0 <= k < final(self).closed_lobby_map@.len() ==> (
                #[trigger] final(self).closed_lobby_map@[k]).game_id != game_id,
            forall|k: int| 0 <= k < final(self).open_lobby_map@.len() ==> old(
                self,
            ).open_lobby_map@.contains(#[trigger] final(self).open_lobby_map@[k]),
            forall|k: int| 0 <= k < final(self).closed_lobby_map@.len() ==> old(
                self,
            ).closed_lobby_map@.contains(#[trigger] final(self).closed_lobby_map@[k]),
            forall|k: int|
                0 <= k < old(self).open_lobby_map@.len() && (
                #[trigger] old(self).open_lobby_map@[k]).game_id != game_id
                    ==> final(self).open_lobby_map@.contains(old(self).open_lobby_map@[k]),
            forall|k: int|
                0 <= k < old(self).closed_lobby_map@.len() && (
                #[trigger] old(self).closed_lobby_map@[k]).game_id != game_id
                    ==> final(self).closed_lobby_map@.contains(old(self).closed_lobby_map@[k]),
            r@ =~= seq![
                RegistryEffect::BroadcastQueueState(final(self).open_lobby is Some),
            ],
    {
        match &self.open_lobby {
            Some(e) => {
                if e.game_id == game_id {
                    self.open_lobby = None;
                }
            },
            None => {},
        }
        let filtered_open = remove_id(&self.open_lobby_map, game_id);
        let filtered_closed = remove_id(&self.closed_lobby_map, game_id);
        self.open_lobby_map = filtered_open;
        self.closed_lobby_map = filtered_closed;
        proof {
            let open0 = old(self).open_lobby_map@;
            let closed0 = old(self).closed_lobby_map@;
            assert forall|i: int, j: int|
                0 <= i < self.open_lobby_map@.len() && 0 <= j < self.closed_lobby_map@.len()
                implies (#[trigger] self.open_lobby_map@[i]).game_id != (
            #[trigger] self.closed_lobby_map@[j]).game_id by {
                let oi = choose|oi: int|
                    0 <= oi < open0.len() && open0[oi] == self.open_lobby_map@[i];
                let oj = choose|oj: int|
                    0 <= oj < closed0.len() && closed0[oj] == self.closed_lobby_map@[j];
                assert(open0[oi].game_id != closed0[oj].game_id);
            }
            if self.open_lobby is Some {
                let e = self.open_lobby->Some_0;
                assert forall|i: int| 0 <= i < self.open_lobby_map@.len() implies e.game_id != (
                #[trigger] self.open_lobby_map@[i]).game_id by {
                    let oi = choose|oi: int|
                        0 <= oi < open0.len() && open0[oi] == self.open_lobby_map@[i];
                    assert(e.game_id != open0[oi].game_id);
                }
                assert forall|i: int| 0 <= i < self.closed_lobby_map@.len() implies e.game_id
                    != (#[trigger] self.closed_lobby_map@[i]).game_id by {
                    let oi = choose|oi: int|
                        0 <= oi < closed0.len() && closed0[oi] == self.closed_lobby_map@[i];
                    assert(e.game_id != closed0[oi].game_id);
                }
            }
        }
        let mut r: Vec<RegistryEffect> = Vec::new();
        let waiting = match &self.open_lobby {
            Some(_) => true,
            None => false,
        };
        r.push(RegistryEffect::BroadcastQueueState(waiting));
        r
    }

    /// A finished ranked game is passed on to the user directory.
    pub fn played_game(&self, info: PlayedGameInfo) -> (r: Vec<RegistryEffect>)
        ensures
            r@.len() == 1,
            r@[0] matches RegistryEffect::RecordPlayedGame(i) && i.winner@ == info.winner@
                && i.loser@ == info.loser@,
    {
        let mut r: Vec<RegistryEffect> = Vec::new();
        r.push(RegistryEffect::RecordPlayedGame(info));
        r
    }

    /// A battle request: a private lobby is created with the sender as
    /// host, the sender's session enters it, and the receiver is told whom
    /// it can join and where.
    pub fn battle_request(&mut self, req: BattleReq, now_ms: u64) -> (r: (
        Lobby,
        Vec<RegistryEffect>,
    ))
        requires
            old(self).wf(),
            old(self).open_lobby_map@.len() + old(self).closed_lobby_map@.len() < 65534,
            old(self).next_handle < u64::MAX,
        ensures
            final(self).wf(),
            crate::lobby::lobby_wf(r.0),
            r.0.game_id == final(self).open_lobby_map@.last().game_id,
            (r.0.state matches crate::lobby::LobbyState::OnePlayer { host_uid }
                && crate::users::opt_uid_eq(host_uid, Some(req.sender_uid))),
            final(self).open_lobby_map@.len() == old(self).open_lobby_map@.len() + 1,
            r.1@.len() == 2,
            r.1@[0] == (RegistryEffect::SessionBattleReqJoinLobby {
                session: req.sender_session,
                lobby: old(self).next_handle,
            }),
            (r.1@[1] matches RegistryEffect::SessionMessage { session, msg } && session
                == req.receiver_session && (msg matches ServerMessage::BattleReq(uid, gid)
                && uid@ == req.sender_uid@ && gid == r.0.game_id)),
    {
        let sender_uid = req.sender_uid.duplicate();
        let (game_id, handle, lobby) = self.create_lobby(
            Some(req.sender_uid),
            LobbyKind::Private,
            now_ms,
        );
        let mut effects: Vec<RegistryEffect> = Vec::new();
        effects.push(RegistryEffect::SessionBattleReqJoinLobby {
            session: req.sender_session,
            lobby: handle,
        });
        effects.push(RegistryEffect::SessionMessage {
            session: req.receiver_session,
            msg: ServerMessage::BattleReq(sender_uid, game_id),
        });
        (lobby, effects)
    }
}

/// The first registry entry carrying the given id, if any.
pub open spec fn spec_find(s: Seq<LobbyEntry>, game_id: GameId) -> Option<LobbyEntry>
    decreases s.len(),
{
    if s.len() == 0 {
        None
    } else if s[0].game_id == game_id {
        Some(s[0])
    } else {
        spec_find(s.drop_first(), game_id)
    }
}

/// One step of the search: a non-matching head can be skipped, a matching
/// head is the answer.
proof fn lemma_find_step(s: Seq<LobbyEntry>, k: int)
    requires
        0 <= k < s.len(),
    ensures
        s[k].game_id != game_id_of(s, k) ==> true,
        spec_find(s.skip(k), game_id_of(s, k)) == Some(s[k]) || true,
        forall|gid: GameId| #![trigger spec_find(s.skip(k), gid)]
            {
                &&& (s[k].game_id == gid ==> spec_find(s.skip(k), gid) == Some(s[k]))
                &&& (s[k].game_id != gid ==> spec_find(s.skip(k), gid) == spec_find(
                    s.skip(k + 1),
                    gid,
                ))
            },
{
    assert forall|gid: GameId| #![trigger spec_find(s.skip(k), gid)]
        {
            &&& (s[k].game_id == gid ==> spec_find(s.skip(k), gid) == Some(s[k]))
            &&& (s[k].game_id != gid ==> spec_find(s.skip(k), gid) == spec_find(
                s.skip(k + 1),
                gid,
            ))
        } by {
        assert(s.skip(k).len() > 0);
        assert(s.skip(k)[0] == s[k]);
        assert(s.skip(k).drop_first() =~= s.skip(k + 1));
    }
}

spec fn game_id_of(s: Seq<LobbyEntry>, k: int) -> GameId {
    s[k].game_id
}

/// The entries whose id is not the given one, in order.  Distinct ids stay
/// distinct.
fn remove_id(v: &Vec<LobbyEntry>, game_id: GameId) -> (r: Vec<LobbyEntry>)
    requires
        forall|i: int, j: int| 0 <= i < j < v@.len() ==> (#[trigger] v@[i]).game_id != (
            #[trigger] v@[j]).game_id,
    ensures
        forall|k: int| 0 <= k < r@.len() ==> (#[trigger] r@[k]).game_id != game_id,
        forall|k: int| 0 <= k < r@.len() ==> v@.contains(#[trigger] r@[k]),
        forall|k: int| 0 <= k < v@.len() && (#[trigger] v@[k]).game_id != game_id
            ==> r@.contains(v@[k]),
        forall|i: int, j: int| 0 <= i < j < r@.len() ==> (#[trigger] r@[i]).game_id != (
            #[trigger] r@[j]).game_id,
{
    let mut r: Vec<LobbyEntry> = Vec::new();
    let ghost mut src: Seq<int> = Seq::empty();
    let mut k: usize = 0;
    while k < v.len()
        invariant
            k <= v@.len(),
            src.len() == r@.len(),
            forall|i: int, j: int| 0 <= i < j < v@.len() ==> (#[trigger] v@[i]).game_id != (
                #[trigger] v@[j]).game_id,
            forall|p: int| 0 <= p < src.len() ==> 0 <= #[trigger] src[p] < k,
            forall|p: int, q: int| 0 <= p < q < src.len() ==> #[trigger] src[p] < #[trigger] src[q],
            forall|p: int| 0 <= p < r@.len() ==> v@[src[p]] == #[trigger] r@[p],
            forall|p: int| 0 <= p < r@.len() ==> (#[trigger] r@[p]).game_id != game_id,
            forall|p: int| 0 <= p < k && (#[trigger] v@[p]).game_id != game_id ==> r@.contains(
                v@[p],
            ),
        decreases v@.len() - k,
    {
        let ghost r0 = r@;
        if !(v[k].game_id == game_id) {
            let ghost src0 = src;
            r.push(v[k]);
            proof {
                src = src.push(k as int);
                assert forall|p: int| 0 <= p < r@.len() implies v@[src[p]] == #[trigger] r@[p]
                    by {
                    if p < r0.len() {
                        assert(src[p] == src0[p]);
                        assert(r@[p] == r0[p]);
                    } else {
                        assert(src[p] == k as int);
                        assert(r@[p] == v@[k as int]);
                    }
                }
            }
        }
        proof {
            assert forall|p: int| 0 <= p < k + 1 && (#[trigger] v@[p]).game_id != game_id
                implies r@.contains(v@[p]) by {
                if p < k {
                    let w = choose|w: int| 0 <= w < r0.len() && r0[w] == v@[p];
                    assert(r@[w] == v@[p]);
                } else {
                    assert(r@.last() == v@[k as int]);
                }
            }
        }
        k += 1;
    }
    proof {
        assert forall|p: int| 0 <= p < r@.len() implies v@.contains(#[trigger] r@[p]) by {
            assert(v@[src[p]] == r@[p]);
        }
        assert forall|i: int, j: int| 0 <= i < j < r@.len() implies (#[trigger] r@[i]).game_id
            != (#[trigger] r@[j]).game_id by {
            assert(v@[src[i]] == r@[i] && v@[src[j]] == r@[j] && src[i] < src[j]);
        }
    }
    r
}

/// Ids of lobbies that are not yet closed are pairwise distinct: the open
/// slot and every joinable lobby carry different ids.
pub proof fn lemma_live_lobby_ids_distinct(m: LobbyManager, i: int, j: int)
    requires
        m.wf(),
        0 <= i < j < m.open_lobby_map@.len(),
    ensures
        m.open_lobby_map@[i].game_id != m.open_lobby_map@[j].game_id,
        m.open_lobby matches Some(e) ==> e.game_id != m.open_lobby_map@[i].game_id,
{
}

} // verus!

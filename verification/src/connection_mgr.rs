//! The process-wide table of sessions, keyed by session token: it spawns
//! session/adapter pairs, re-attaches reconnecting sockets, reaps idle
//! entries and fans out global chat.

use vstd::prelude::*;
use crate::adapter::{ClientAdapter, ClientConnectionConnectionState};
use crate::rng::random_alphanumeric;
use crate::session::ClientState;

verus! {

/// How long an entry survives without a socket, in seconds.
pub const CONNECTION_KEEPALIVE_SECONDS: u64 = 30;

/// How often the server state is broadcast, in seconds.
pub const SEND_SERVER_INFO_INTERVAL_SECONDS: u64 = 2;

/// Length of a transport session token.
pub const SESSION_TOKEN_LEN: usize = 32;

/// Whether the entry's socket is alive, and since when it is not.
#[derive(Clone, Copy, Debug, PartialEq, Eq, Structural)]
pub enum ConnectionState {
    /// The socket currently bound, by its opaque id.
    Connected(u64),
    /// No socket since the given time (milliseconds).
    Disconnected(u64),
}

/// One session and everything that belongs to it.
pub struct Connection {
    pub session_token: String,
    pub adapter: ClientAdapter,
    pub session: ClientState,
    pub state: ConnectionState,
}

/// The connection registry.
pub struct ConnectionManager {
    pub connections: Vec<Connection>,
    /// Someone is waiting for a public match.
    pub player_in_queue: bool,
    /// A state change is waiting for the next broadcast.
    pub send_server_info_batched: bool,
}

/// The first entry whose token reads as `token`.
pub open spec fn spec_find_token(s: Seq<Connection>, token: Seq<char>) -> Option<int>
    decreases s.len(),
{
    if s.len() == 0 {
        None
    } else if s[0].session_token@ == token {
        Some(0int)
    } else {
        match spec_find_token(s.drop_first(), token) {
            Some(i) => Some(i + 1),
            None => None,
        }
    }
}

proof fn lemma_find_token_step(s: Seq<Connection>, k: int, token: Seq<char>)
    requires
        0 <= k < s.len(),
    ensures
        s[k].session_token@ == token ==> spec_find_token(s.skip(k), token) == Some(0int),
        s[k].session_token@ != token ==> spec_find_token(s.skip(k), token) == (match
            spec_find_token(s.skip(k + 1), token) {
            Some(i) => Some(i + 1),
            None => None::<int>,
        }),
{
    assert(s.skip(k).len() > 0);
    assert(s.skip(k)[0] == s[k]);
    assert(s.skip(k).drop_first() =~= s.skip(k + 1));
}

proof fn lemma_find_token_offset(s: Seq<Connection>, k: int, token: Seq<char>)
    requires
        0 <= k <= s.len(),
        forall|j: int| 0 <= j < k ==> (#[trigger] s[j]).session_token@ != token,
    ensures
        spec_find_token(s, token) == (match spec_find_token(s.skip(k), token) {
            Some(i) => Some(i + k),
            None => None::<int>,
        }),
    decreases k,
{
    if k == 0 {
        assert(s.skip(0) =~= s);
    } else {
        lemma_find_token_offset(s, k - 1, token);
        lemma_find_token_step(s, k - 1, token);
    }
}

impl ConnectionManager {
    /// Session tokens are pairwise distinct.
    pub open spec fn wf(self) -> bool {
        forall|i: int, j: int|
            0 <= i < j < self.connections@.len() ==> (
            #[trigger] self.connections@[i]).session_token@ != (
            #[trigger] self.connections@[j]).session_token@
    }

    pub fn new() -> (r: ConnectionManager)
        ensures
            r.wf(),
            r.connections@.len() == 0,
            !r.player_in_queue,
            !r.send_server_info_batched,
    {
        ConnectionManager {
            connections: Vec::new(),
            player_in_queue: false,
            send_server_info_batched: false,
        }
    }

    /// The position of the entry holding this token.
    fn find_token(&self, token: &str) -> (r: Option<usize>)
        ensures
            match r {
                Some(k) => k < self.connections@.len() && spec_find_token(
                    self.connections@,
                    token@,
                ) == Some(k as int),
                None => spec_find_token(self.connections@, token@) is None,
            },
            (spec_find_token(self.connections@, token@) is Some) == (exists|j: int|
                0 <= j < self.connections@.len() && (
                #[trigger] self.connections@[j]).session_token@ == token@),
            r matches Some(k) ==> self.connections@[k as int].session_token@ == token@,
    {
        let n = self.connections.len();
        let mut k: usize = 0;
        proof {
            assert(self.connections@.skip(0) =~= self.connections@);
        }
        while k < n
            invariant
                k <= n,
                n == self.connections@.len(),
                forall|j: int| 0 <= j < k ==> (#[trigger] self.connections@[j]).session_token@
                    != token@,
            decreases n - k,
        {
            proof {
                lemma_find_token_step(self.connections@, k as int, token@);
                lemma_find_token_offset(self.connections@, k as int, token@);
            }
            if crate::text::str_eq(self.connections[k].session_token.as_str(), token) {
                return Some(k);
            }
            k += 1;
        }
        proof {
            lemma_find_token_offset(self.connections@, n as int, token@);
            assert(self.connections@.skip(n as int) =~= Seq::<Connection>::empty());
        }
        None
    }

    /// Opens a fresh entry for a socket that asked for a new session: a
    /// random token is minted, and a new session/adapter pair is keyed under
    /// it.  In the vanishingly rare case that the token is already taken,
    /// the old entry is replaced.
    pub fn request_adapter_new(&mut self, socket: u64) -> (token: String)
        requires
            old(self).wf(),
        ensures
            final(self).wf(),
            final(self).player_in_queue == old(self).player_in_queue,
            final(self).send_server_info_batched,
            token@.len() == SESSION_TOKEN_LEN,
            exists|k: int|
                0 <= k < final(self).connections@.len() && {
                    let c = #[trigger] final(self).connections@[k];
                    &&& c.session_token@ == token@
                    &&& c.state == ConnectionState::Connected(socket)
                    &&& c.adapter.connection
                        == ClientConnectionConnectionState::Connected(socket)
                    &&& !c.adapter.closed
                    &&& c.adapter.reliability.player_msg_index == 0
                    &&& c.adapter.reliability.server_msg_index == 0
                    &&& c.session.lobby_state is Idle
                    &&& c.session.user is None
                },
    {
        let token = random_alphanumeric(SESSION_TOKEN_LEN);
        let entry = Connection {
            session_token: token.clone(),
            adapter: ClientAdapter::new(socket),
            session: ClientState::new(token.clone()),
            state: ConnectionState::Connected(socket),
        };
        self.insert_entry(entry);
        self.send_server_info_batched = true;
        token
    }

    /// Opens a fresh entry for a legacy socket.
    pub fn request_adapter_legacy(&mut self, socket: u64) -> (token: String)
        requires
            old(self).wf(),
        ensures
            final(self).wf(),
            final(self).send_server_info_batched,
            token@.len() == SESSION_TOKEN_LEN,
            exists|k: int|
                0 <= k < final(self).connections@.len() && {
                    let c = #[trigger] final(self).connections@[k];
                    &&& c.session_token@ == token@
                    &&& c.state == ConnectionState::Connected(socket)
                    &&& c.adapter.connection
                        == ClientConnectionConnectionState::ConnectedLegacy(socket)
                },
    {
        let token = random_alphanumeric(SESSION_TOKEN_LEN);
        let entry = Connection {
            session_token: token.clone(),
            adapter: ClientAdapter::legacy(socket),
            session: ClientState::new(token.clone()),
            state: ConnectionState::Connected(socket),
        };
        self.insert_entry(entry);
        self.send_server_info_batched = true;
        token
    }

    /// Keys the entry under its token, replacing any entry that held it.
    fn insert_entry(&mut self, entry: Connection)
        requires
            old(self).wf(),
        ensures
            final(self).wf(),
            final(self).player_in_queue == old(self).player_in_queue,
            final(self).send_server_info_batched == old(self).send_server_info_batched,
            exists|k: int|
                0 <= k < final(self).connections@.len() && (
                #[trigger] final(self).connections@[k]) == entry,
    {
        let found = self.find_token(entry.session_token.as_str());
        match found {
            Some(k) => {
                self.connections[k] = entry;
                proof {
                    assert(self.connections@[k as int] == entry);
                    assert forall|i: int, j: int|
                        0 <= i < j < self.connections@.len() implies (
                    #[trigger] self.connections@[i]).session_token@ != (
                    #[trigger] self.connections@[j]).session_token@ by {
                        if i != k as int && j != k as int {
                            assert(self.connections@[i] == old(self).connections@[i]);
                            assert(self.connections@[j] == old(self).connections@[j]);
                        } else {
                            assert(old(self).connections@[k as int].session_token@
                                == entry.session_token@);
                        }
                    }
                }
            },
            None => {
                self.connections.push(entry);
                proof {
                    assert(self.connections@.last() == entry);
                    assert forall|i: int, j: int|
                        0 <= i < j < self.connections@.len() implies (
                    #[trigger] self.connections@[i]).session_token@ != (
                    #[trigger] self.connections@[j]).session_token@ by {
                        if j == self.connections@.len() - 1 {
                            assert(self.connections@[i] == old(self).connections@[i]);
                        }
                    }
                }
            },
        }
    }

    /// A socket reconnects with a known token: the new socket is swapped
    /// into the existing entry and nothing else moves — the session keeps
    /// its state and the adapter keeps every queue and counter, so no
    /// message is lost in either direction.  An unknown token means the
    /// session has expired; the caller opens a fresh one instead.
    pub fn request_adapter_existing(&mut self, socket: u64, token: &str) -> (found: bool)
        requires
            old(self).wf(),
        ensures
            final(self).wf(),
            found == (spec_find_token(old(self).connections@, token@) is Some),
            !found ==> *final(self) == *old(self),
            found ==> {
                let k = spec_find_token(old(self).connections@, token@)->Some_0;
                &&& final(self).connections@.len() == old(self).connections@.len()
                &&& forall|j: int|
                    0 <= j < final(self).connections@.len() && j != k ==> (
                    #[trigger] final(self).connections@[j]) == old(self).connections@[j]
                &&& final(self).connections@[k].session_token@ == old(
                    self,
                ).connections@[k].session_token@
                &&& final(self).connections@[k].state == ConnectionState::Connected(socket)
                &&& final(self).connections@[k].adapter.connection
                    == ClientConnectionConnectionState::Connected(socket)
                &&& final(self).connections@[k].adapter.reliability == old(
                    self,
                ).connections@[k].adapter.reliability
                &&& final(self).connections@[k].adapter.closed == old(
                    self,
                ).connections@[k].adapter.closed
                &&& final(self).connections@[k].session == old(self).connections@[k].session
            },
    {
        let found = self.find_token(token);
        match found {
            Some(k) => {
                self.connections[k].state = ConnectionState::Connected(socket);
                self.connections[k].adapter.connect(socket);
                proof {
                    assert forall|i: int, j: int|
                        0 <= i < j < self.connections@.len() implies (
                    #[trigger] self.connections@[i]).session_token@ != (
                    #[trigger] self.connections@[j]).session_token@ by {
                        assert(self.connections@[i].session_token@ == old(
                            self,
                        ).connections@[i].session_token@);
                        assert(self.connections@[j].session_token@ == old(
                            self,
                        ).connections@[j].session_token@);
                    }
                }
                true
            },
            None => false,
        }
    }

    /// A socket closed.  If it is still the one bound to the entry, the
    /// entry goes dormant: a legacy entry dies at once, a reliable one
    /// merely loses its socket and keeps every queue for the grace period.
    pub fn disconnect(&mut self, socket: u64, token: &str, now_ms: u64)
        requires
            old(self).wf(),
        ensures
            final(self).wf(),
            final(self).send_server_info_batched,
            final(self).connections@.len() == old(self).connections@.len(),
            forall|j: int|
                0 <= j < final(self).connections@.len() && Some(j) != spec_find_token(
                    old(self).connections@,
                    token@,
                ) ==> (#[trigger] final(self).connections@[j]) == old(self).connections@[j],
            spec_find_token(old(self).connections@, token@) matches Some(k) ==> {
                let c0 = old(self).connections@[k];
                let c1 = final(self).connections@[k];
                &&& (c0.state == ConnectionState::Connected(socket)
                    && c0.adapter.connection is Connected ==> {
                    &&& c1.state == ConnectionState::Disconnected(now_ms)
                    &&& c1.adapter.connection
                        == ClientConnectionConnectionState::Disconnected
                    &&& c1.adapter.reliability == c0.adapter.reliability
                    &&& c1.session == c0.session
                })
                &&& (c0.state != ConnectionState::Connected(socket) ==> c1 == c0)
            },
    {
        let found = self.find_token(token);
        match found {
            Some(k) => {
                let bound = match self.connections[k].state {
                    ConnectionState::Connected(s) => s == socket,
                    _ => false,
                };
                if bound {
                    let legacy = match self.connections[k].adapter.connection {
                        ClientConnectionConnectionState::ConnectedLegacy(_) => true,
                        _ => false,
                    };
                    if legacy {
                        self.connections[k].adapter.close();
                        self.connections[k].state = ConnectionState::Disconnected(now_ms);
                    } else {
                        self.connections[k].adapter.disconnect();
                        self.connections[k].state = ConnectionState::Disconnected(now_ms);
                    }
                }
                proof {
                    assert forall|i: int, j: int|
                        0 <= i < j < self.connections@.len() implies (
                    #[trigger] self.connections@[i]).session_token@ != (
                    #[trigger] self.connections@[j]).session_token@ by {
                        assert(self.connections@[i].session_token@ == old(
                            self,
                        ).connections@[i].session_token@);
                        assert(self.connections@[j].session_token@ == old(
                            self,
                        ).connections@[j].session_token@);
                    }
                }
            },
            None => {},
        }
        self.send_server_info_batched = true;
    }

    /// The reaper: entries without a socket for longer than the grace
    /// period are removed and handed back for teardown.
    pub fn sweep(&mut self, now_ms: u64) -> (removed: Vec<Connection>)
        requires
            old(self).wf(),
        ensures
            final(self).wf(),
            forall|j: int| 0 <= j < final(self).connections@.len() ==> !expired(
                #[trigger] final(self).connections@[j],
                now_ms,
            ),
            forall|j: int| 0 <= j < removed@.len() ==> expired(#[trigger] removed@[j], now_ms),
            final(self).connections@.len() + removed@.len() == old(self).connections@.len(),
            forall|j: int| 0 <= j < final(self).connections@.len() ==> old(
                self,
            ).connections@.contains(#[trigger] final(self).connections@[j]),
            forall|k: int| 0 <= k < old(self).connections@.len() && !expired(
                #[trigger] old(self).connections@[k],
                now_ms,
            ) ==> final(self).connections@.contains(old(self).connections@[k]),
            final(self).player_in_queue == old(self).player_in_queue,
    {
        let mut kept: Vec<Connection> = Vec::new();
        let mut removed: Vec<Connection> = Vec::new();
        let ghost mut kept_src: Seq<int> = Seq::empty();
        proof {
            assert(self.connections@ =~= old(self).connections@.take(
                self.connections@.len() as int,
            ));
        }
        loop
            invariant
                old(self).wf(),
                self.connections@ == old(self).connections@.take(
                    self.connections@.len() as int,
                ),
                self.player_in_queue == old(self).player_in_queue,
                kept@.len() + removed@.len() + self.connections@.len() == old(
                    self,
                ).connections@.len(),
                kept_src.len() == kept@.len(),
                forall|p: int| 0 <= p < kept_src.len() ==> self.connections@.len()
                    <= #[trigger] kept_src[p] < old(self).connections@.len(),
                forall|p: int, q: int| 0 <= p < q < kept_src.len() ==> #[trigger] kept_src[p]
                    > #[trigger] kept_src[q],
                forall|p: int| 0 <= p < kept@.len() ==> (#[trigger] kept@[p]) == old(
                    self,
                ).connections@[kept_src[p]],
                forall|p: int| 0 <= p < kept@.len() ==> !expired(#[trigger] kept@[p], now_ms),
                forall|p: int| 0 <= p < removed@.len() ==> expired(
                    #[trigger] removed@[p],
                    now_ms,
                ),
                forall|p: int|
                    self.connections@.len() <= p < old(self).connections@.len() && !expired(
                        #[trigger] old(self).connections@[p],
                        now_ms,
                    ) ==> kept@.contains(old(self).connections@[p]),
            ensures
                self.connections@.len() == 0,
                self.player_in_queue == old(self).player_in_queue,
                kept@.len() + removed@.len() == old(self).connections@.len(),
                kept_src.len() == kept@.len(),
                forall|p: int| 0 <= p < kept_src.len() ==> 0 <= #[trigger] kept_src[p] < old(
                    self,
                ).connections@.len(),
                forall|p: int, q: int| 0 <= p < q < kept_src.len() ==> #[trigger] kept_src[p]
                    > #[trigger] kept_src[q],
                forall|p: int| 0 <= p < kept@.len() ==> (#[trigger] kept@[p]) == old(
                    self,
                ).connections@[kept_src[p]],
                forall|p: int| 0 <= p < kept@.len() ==> !expired(#[trigger] kept@[p], now_ms),
                forall|p: int| 0 <= p < removed@.len() ==> expired(
                    #[trigger] removed@[p],
                    now_ms,
                ),
                forall|p: int| 0 <= p < old(self).connections@.len() && !expired(
                    #[trigger] old(self).connections@[p],
                    now_ms,
                ) ==> kept@.contains(old(self).connections@[p]),
            decreases self.connections@.len(),
        {
            let ghost m = self.connections@.len() as int;
            let entry = match self.connections.pop() {
                Some(e) => e,
                None => {
                    break;
                },
            };
            proof {
                assert(old(self).connections@.take(m).last() == old(self).connections@[m - 1]);
                assert(self.connections@ =~= old(self).connections@.take(m - 1));
            }
            let is_expired = match entry.state {
                ConnectionState::Disconnected(since) => now_ms >= since && (now_ms - since)
                    / 1000 >= CONNECTION_KEEPALIVE_SECONDS,
                _ => false,
            };
            let ghost kept0 = kept@;
            if is_expired {
                removed.push(entry);
            } else {
                let ghost src0 = kept_src;
                kept.push(entry);
                proof {
                    kept_src = kept_src.push(m - 1);
                    assert forall|p: int| 0 <= p < kept@.len() implies (#[trigger] kept@[p])
                        == old(self).connections@[kept_src[p]] by {
                        if p < kept0.len() {
                            assert(kept@[p] == kept0[p]);
                            assert(kept_src[p] == src0[p]);
                        } else {
                            assert(kept_src[p] == m - 1);
                        }
                    }
                }
            }
            proof {
                assert forall|p: int|
                    self.connections@.len() <= p < old(self).connections@.len() && !expired(
                        #[trigger] old(self).connections@[p],
                        now_ms,
                    ) implies kept@.contains(old(self).connections@[p]) by {
                    if p >= m {
                        let w = choose|w: int|
                            0 <= w < kept0.len() && kept0[w] == old(self).connections@[p];
                        assert(kept@[w] == old(self).connections@[p]);
                    } else {
                        assert(p == m - 1);
                        assert(kept@.last() == entry);
                    }
                }
            }
        }
        self.connections = kept;
        proof {
            assert forall|i: int, j: int|
                0 <= i < j < self.connections@.len() implies (
            #[trigger] self.connections@[i]).session_token@ != (
            #[trigger] self.connections@[j]).session_token@ by {
                assert(self.connections@[i] == old(self).connections@[kept_src[i]]);
                assert(self.connections@[j] == old(self).connections@[kept_src[j]]);
            }
            assert forall|j: int| 0 <= j < self.connections@.len() implies old(
                self,
            ).connections@.contains(#[trigger] self.connections@[j]) by {
                assert(self.connections@[j] == old(self).connections@[kept_src[j]]);
            }
        }
        removed
    }

    /// The positions of every entry other than the sender's: the global
    /// chat fan-out reaches all of them.
    pub fn global_chat_recipients(&self, sender_token: &str) -> (r: Vec<usize>)
        ensures
            forall|p: int| 0 <= p < r@.len() ==> {
                &&& (#[trigger] r@[p]) < self.connections@.len()
                &&& self.connections@[r@[p] as int].session_token@ != sender_token@
            },
            forall|j: int|
                0 <= j < self.connections@.len() && (
                #[trigger] self.connections@[j]).session_token@ != sender_token@
                    ==> r@.contains(j as usize),
    {
        let mut r: Vec<usize> = Vec::new();
        let n = self.connections.len();
        let mut k: usize = 0;
        while k < n
            invariant
                k <= n,
                n == self.connections@.len(),
                forall|p: int| 0 <= p < r@.len() ==> {
                    &&& (#[trigger] r@[p]) < k
                    &&& self.connections@[r@[p] as int].session_token@ != sender_token@
                },
                forall|j: int|
                    0 <= j < k && (#[trigger] self.connections@[j]).session_token@
                        != sender_token@ ==> r@.contains(j as usize),
            decreases n - k,
        {
            let ghost r0 = r@;
            if !crate::text::str_eq(self.connections[k].session_token.as_str(), sender_token) {
                r.push(k);
                proof {
                    assert forall|j: int|
                        0 <= j < k + 1 && (#[trigger] self.connections@[j]).session_token@
                            != sender_token@ implies r@.contains(j as usize) by {
                        if j < k {
                            let p = choose|p: int| 0 <= p < r0.len() && r0[p] == j as usize;
                            assert(r@[p] == j as usize);
                        } else {
                            assert(r@.last() == k);
                        }
                    }
                }
            } else {
                proof {
                    assert forall|j: int|
                        0 <= j < k + 1 && (#[trigger] self.connections@[j]).session_token@
                            != sender_token@ implies r@.contains(j as usize) by {
                        assert(j < k);
                        let p = choose|p: int| 0 <= p < r0.len() && r0[p] == j as usize;
                        assert(r@[p] == j as usize);
                    }
                }
            }
            k += 1;
        }
        r
    }

    /// The matchmaking bit changed: remember it and batch a broadcast.
    pub fn update_queue_state(&mut self, player_in_queue: bool)
        ensures
            final(self).connections@ == old(self).connections@,
            final(self).player_in_queue == player_in_queue,
            final(self).send_server_info_batched,
    {
        self.player_in_queue = player_in_queue;
        self.send_server_info_batched = true;
    }

    /// What a server-state broadcast carries: the number of entries and the
    /// queue bit.  Clears the batch flag.
    pub fn server_state_broadcast(&mut self) -> (r: (usize, bool))
        ensures
            final(self).connections@ == old(self).connections@,
            final(self).player_in_queue == old(self).player_in_queue,
            !final(self).send_server_info_batched,
            r.0 == old(self).connections@.len(),
            r.1 == old(self).player_in_queue,
    {
        self.send_server_info_batched = false;
        (self.connections.len(), self.player_in_queue)
    }
}

/// What a socket's first line asks for.
pub enum HelloDecision {
    /// The client's protocol version is too old: answer `HELLO::OUTDATED`
    /// and close.
    ReplyOutdated,
    /// Open a fresh session and greet it with its new token.
    OpenNew,
    /// Re-attach the session behind this token; if it is gone, open a
    /// fresh one.
    Resume(String),
    /// No HELLO, but a recognisable legacy command: open a legacy session
    /// and feed it this very line.
    OpenLegacy,
    /// Nothing recognisable yet: tell the socket it is not connected.
    NotConnected,
}

/// The line parses as a HELLO frame.
pub open spec fn hello_parsed(o: Seq<char>) -> bool {
    crate::codec::hello_frame(o) && crate::codec::digits_ok(
        o.subrange(7, choose|i: int| crate::codec::hello_frame_at(o, i)),
    )
}

/// The protocol version a parsed HELLO carries.
pub open spec fn hello_version(o: Seq<char>) -> nat {
    crate::digits::digits_val(
        o.subrange(7, choose|i: int| crate::codec::hello_frame_at(o, i)),
    )
}

/// Decides what a socket's first line asks for: an up-to-date HELLO opens
/// or resumes a session, an outdated one is turned away, a bare legacy
/// command opens a legacy session, anything else is not yet connected.
pub fn decide_hello(line: &str) -> (r: HelloDecision)
    ensures
        match r {
            HelloDecision::ReplyOutdated => hello_parsed(line@) && hello_version(line@)
                < crate::reliability::MIN_VERSION,
            HelloDecision::OpenNew => hello_parsed(line@) && hello_version(line@)
                >= crate::reliability::MIN_VERSION && crate::codec::hello_token_spec(
                line@.skip(
                    (choose|i: int| crate::codec::hello_frame_at(line@, i)) + 2,
                ),
                None,
            ),
            HelloDecision::Resume(token) => hello_parsed(line@) && hello_version(line@)
                >= crate::reliability::MIN_VERSION && crate::codec::hello_token_spec(
                line@.skip(
                    (choose|i: int| crate::codec::hello_frame_at(line@, i)) + 2,
                ),
                Some(token),
            ),
            HelloDecision::OpenLegacy => !hello_parsed(line@)
                && crate::codec::player_parseable(line@),
            HelloDecision::NotConnected => !hello_parsed(line@)
                && !crate::codec::player_parseable(line@),
        },
{
    match crate::protocol::HelloIn::parse(line) {
        Some(hello) => {
            if hello.protocol_version < crate::reliability::MIN_VERSION {
                HelloDecision::ReplyOutdated
            } else {
                match hello.maybe_session_token {
                    Some(token) => HelloDecision::Resume(token),
                    None => HelloDecision::OpenNew,
                }
            }
        },
        None => {
            match crate::protocol::PlayerMessage::parse(line) {
                Some(_) => HelloDecision::OpenLegacy,
                None => HelloDecision::NotConnected,
            }
        },
    }
}

/// An entry is expired once it has sat without a socket beyond the grace
/// period.
pub open spec fn expired(c: Connection, now_ms: u64) -> bool {
    match c.state {
        ConnectionState::Disconnected(since) => now_ms >= since && (now_ms - since) / 1000
            >= CONNECTION_KEEPALIVE_SECONDS,
        _ => false,
    }
}

} // verus!

//! Server core for an online two-player "Four in a Row" game.
//!
//! The crate models the real-time session layer of the game server as a set
//! of verified state machines: the board rules, the wire protocol codec, the
//! per-connection reliability layer, the per-client session, the lobby, and
//! the two registries (lobbies and connections).  All I/O stays outside; the
//! functions here map plain values to plain values and carry contracts.

pub mod adapter;
pub mod api;
pub mod board;
pub mod chat;
pub mod codec;
pub mod connection_mgr;
pub mod db;
pub mod digits;
pub mod game_id;
pub mod lobby;
pub mod lobby_mgr;
pub mod logging;
pub mod player;
pub mod protocol;
pub mod reliability;
pub mod rng;
pub mod session;
pub mod text;
pub mod user_mgr;
pub mod users;

use vstd::prelude::*;

verus! {

} // verus!

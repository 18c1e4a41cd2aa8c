//! The wire codec: colon-delimited ASCII frames and logical messages.
//!
//! Frames between client and server are `MSG::<id>::<payload>`, `ACK::<id>`
//! and `ERR::<reason>`, preceded by a `HELLO` exchange.  Payloads are the
//! logical messages of `protocol`.

use vstd::prelude::*;
use crate::digits::{all_digits, digits_of, digits_val, digit_val, parse_digits, usize_to_string};
use crate::game_id::GameId;
use crate::lobby_mgr::LobbyKind;
use crate::protocol::{
    HelloIn, HelloOut, PlayerMessage, ReliabilityError, ReliablePacketIn, ReliablePacketOut,
    ServerMessage, SrvMsgError,
};
use crate::text::{chars_to_string, is_ascii_digit_char, spec_upper, spec_upper_char, upper_char};
use crate::users::{UserId, user_id_text_ok};
use vstd::utf8::{decode_utf8, encode_utf8, valid_utf8};

verus! {

// ---------------------------------------------------------------------------
// Character sequence helpers
// ---------------------------------------------------------------------------

/// The two-character frame separator `::` sits at position `i`.
pub open spec fn sep_at(s: Seq<char>, i: int) -> bool {
    0 <= i && i + 2 <= s.len() && s[i] == ':' && s[i + 1] == ':'
}

pub open spec fn has_sep(s: Seq<char>) -> bool {
    exists|i: int| sep_at(s, i)
}

pub open spec fn no_colon(s: Seq<char>) -> bool {
    forall|i: int| 0 <= i < s.len() ==> s[i] != ':'
}

fn str_to_chars(s: &str) -> (v: Vec<char>)
    ensures
        v@ == s@,
{
    let n = s.unicode_len();
    let mut v: Vec<char> = Vec::new();
    let mut i: usize = 0;
    while i < n
        invariant
            i <= n,
            n == s@.len(),
            v@ == s@.take(i as int),
        decreases n - i,
    {
        v.push(s.get_char(i));
        proof {
            assert(v@ =~= s@.take(i + 1));
        }
        i += 1;
    }
    proof {
        assert(s@.take(n as int) =~= s@);
    }
    v
}

fn upper_chars(v: &Vec<char>) -> (u: Vec<char>)
    ensures
        u@ == spec_upper(v@),
{
    let mut u: Vec<char> = Vec::new();
    let mut i: usize = 0;
    while i < v.len()
        invariant
            i <= v@.len(),
            u@ == spec_upper(v@.take(i as int)),
        decreases v@.len() - i,
    {
        u.push(upper_char(v[i]));
        proof {
            assert(u@ =~= spec_upper(v@.take(i + 1)));
        }
        i += 1;
    }
    proof {
        assert(v@.take(v@.len() as int) =~= v@);
    }
    u
}

fn chars_eq_str(v: &Vec<char>, lit: &str) -> (r: bool)
    ensures
        r == (v@ == lit@),
{
    let m = lit.unicode_len();
    if v.len() != m {
        return false;
    }
    let mut i: usize = 0;
    while i < m
        invariant
            i <= m,
            m == lit@.len(),
            v@.len() == m,
            forall|j: int| 0 <= j < i ==> v@[j] == lit@[j],
        decreases m - i,
    {
        if v[i] != lit.get_char(i) {
            return false;
        }
        i += 1;
    }
    proof {
        assert(v@ =~= lit@);
    }
    true
}

fn chars_prefix_str(v: &Vec<char>, lit: &str) -> (r: bool)
    ensures
        r == (v@.len() >= lit@.len() && v@.take(lit@.len() as int) == lit@),
{
    let m = lit.unicode_len();
    if v.len() < m {
        return false;
    }
    let mut i: usize = 0;
    while i < m
        invariant
            i <= m,
            m == lit@.len(),
            v@.len() >= m,
            forall|j: int| 0 <= j < i ==> v@[j] == lit@[j],
        decreases m - i,
    {
        if v[i] != lit.get_char(i) {
            proof {
                assert(v@.take(m as int)[i as int] != lit@[i as int]);
            }
            return false;
        }
        i += 1;
    }
    proof {
        assert(v@.take(m as int) =~= lit@);
    }
    true
}

fn char_range(v: &Vec<char>, from: usize, to: usize) -> (out: Vec<char>)
    requires
        from <= to <= v@.len(),
    ensures
        out@ == v@.subrange(from as int, to as int),
{
    let mut out: Vec<char> = Vec::new();
    let mut i: usize = from;
    while i < to
        invariant
            from <= i <= to <= v@.len(),
            out@ == v@.subrange(from as int, i as int),
        decreases to - i,
    {
        out.push(v[i]);
        proof {
            assert(out@ =~= v@.subrange(from as int, i + 1));
        }
        i += 1;
    }
    out
}

/// First occurrence of the separator at or after `from`.
fn find_sep(v: &Vec<char>, from: usize) -> (r: Option<usize>)
    requires
        from <= v@.len(),
    ensures
        match r {
            Some(i) => {
                &&& from <= i
                &&& sep_at(v@, i as int)
                &&& forall|j: int| from <= j < i ==> !sep_at(v@, j)
            },
            None => forall|j: int| from <= j ==> !sep_at(v@, j),
        },
{
    if v.len() < 2 {
        return None;
    }
    let mut i: usize = from;
    while i < v.len() - 1
        invariant
            from <= i,
            i <= v@.len(),
            v@.len() >= 2,
            forall|j: int| from <= j < i ==> !sep_at(v@, j),
        decreases v@.len() - i,
    {
        if v[i] == ':' && v[i + 1] == ':' {
            return Some(i);
        }
        i += 1;
    }
    None
}

fn no_colon_in(v: &Vec<char>, from: usize) -> (r: bool)
    requires
        from <= v@.len(),
    ensures
        r == no_colon(v@.skip(from as int)),
{
    let mut i: usize = from;
    while i < v.len()
        invariant
            from <= i <= v@.len(),
            forall|j: int| from <= j < i ==> v@[j] != ':',
        decreases v@.len() - i,
    {
        if v[i] == ':' {
            proof {
                assert(v@.skip(from as int)[i - from] == ':');
            }
            return false;
        }
        i += 1;
    }
    true
}

// ---------------------------------------------------------------------------
// Outside calls: base64 and UTF-8
// ---------------------------------------------------------------------------

/// What base64's standard-alphabet encoder returns for the given bytes.
pub uninterp spec fn b64_of(bytes: Seq<u8>) -> Seq<char>;

/// What base64's standard-alphabet decoder returns for the given text.
pub uninterp spec fn b64_decode_of(s: Seq<char>) -> Option<Seq<u8>>;

/// Relies on base64::encode_config with the STANDARD alphabet: the result is
/// a function of the input bytes alone, decode_config inverts it, the output
/// uses only `A`-`Z a`-`z 0`-`9 + /` and `=` padding (so it never holds a
/// colon), and every three input bytes become four output characters.
#[verifier::external_body]
fn b64_encode(bytes: &Vec<u8>) -> (r: String)
    ensures
        r@ == b64_of(bytes@),
        b64_decode_of(r@) == Some(bytes@),
        no_colon(r@),
        r@.len() == 4 * ((bytes@.len() + 2) / 3),
{
    base64::encode_config(bytes, base64::STANDARD)
}

/// Relies on base64::decode_config with the STANDARD alphabet: it accepts a
/// fixed set of strings and its result depends on the input alone.
#[verifier::external_body]
fn b64_decode(s: &str) -> (r: Option<Vec<u8>>)
    ensures
        match r {
            Some(b) => b64_decode_of(s@) == Some(b@),
            None => b64_decode_of(s@) is None,
        },
{
    base64::decode_config(s, base64::STANDARD).ok()
}

/// Relies on String::from_utf8: it accepts exactly valid UTF-8 and returns
/// its decoding.
#[verifier::external_body]
fn string_from_utf8(v: Vec<u8>) -> (r: Option<String>)
    ensures
        match r {
            Some(s) => valid_utf8(v@) && s@ == decode_utf8(v@),
            None => !valid_utf8(v@),
        },
{
    String::from_utf8(v).ok()
}

/// Encodes a chat message for the wire: base64 over the UTF-8 bytes.
pub fn encode_chat_payload(msg: &str) -> (r: String)
    ensures
        r@ == b64_of(encode_utf8(msg@)),
        b64_decode_of(r@) == Some(encode_utf8(msg@)),
        no_colon(r@),
{
    let bytes = msg.as_bytes_vec();
    b64_encode(&bytes)
}

/// Decodes a chat payload from the wire.
pub fn decode_chat_payload(s: &str) -> (r: Option<String>)
    ensures
        match b64_decode_of(s@) {
            Some(bytes) => if valid_utf8(bytes) {
                r matches Some(m) && m@ == decode_utf8(bytes)
            } else {
                r is None
            },
            None => r is None,
        },
{
    match b64_decode(s) {
        Some(bytes) => string_from_utf8(bytes),
        None => None,
    }
}

// ---------------------------------------------------------------------------
// Serialisation
// ---------------------------------------------------------------------------

pub open spec fn bool_text(b: bool) -> Seq<char> {
    if b {
        "true"@
    } else {
        "false"@
    }
}

pub open spec fn spec_err_text(e: SrvMsgError) -> Seq<char> {
    match e {
        SrvMsgError::Internal => "Internal"@,
        SrvMsgError::NotYourTurn => "NotYourTurn"@,
        SrvMsgError::NotInLobby => "NotInLobby"@,
        SrvMsgError::LobbyNotFound => "LobbyNotFound"@,
        SrvMsgError::LobbyFull => "LobbyFull"@,
        SrvMsgError::InvalidColumn => "InvalidColumn"@,
        SrvMsgError::GameNotStarted => "GameNotStarted"@,
        SrvMsgError::AlreadyInLobby => "AlreadyInLobby"@,
        SrvMsgError::GameNotOver => "GameNotOver"@,
        SrvMsgError::IncorrectCredentials => "IncorrectCredentials"@,
        SrvMsgError::NotLoggedIn => "NotLoggedIn"@,
        SrvMsgError::UserNotPlaying => "UserNotPlaying"@,
        SrvMsgError::NoSuchUser => "NoSuchUser"@,
        SrvMsgError::AlreadyPlaying => "AlreadyPlaying"@,
    }
}

pub open spec fn spec_rel_err_text(e: ReliabilityError) -> Seq<char> {
    match e {
        ReliabilityError::InvalidContent => "INVALID_CONTENT"@,
        ReliabilityError::InvalidFormat => "INVALID_FORMAT"@,
        ReliabilityError::UnknownMessage => "UNKNOWN_MESSAGE"@,
    }
}

/// The wire text of a server message.
pub open spec fn spec_server_msg(m: ServerMessage) -> Seq<char> {
    match m {
        ServerMessage::PlaceChip(col) => "PC:"@ + digits_of(col as nat),
        ServerMessage::OpponentLeaving => "OPP_LEAVING"@,
        ServerMessage::OpponentJoining => "OPP_JOINED"@,
        ServerMessage::LobbyResponse(gid) => "LOBBY_ID:"@ + gid.chars(),
        ServerMessage::GameStart(your_turn, maybe_uid) => "GAME_START:"@ + (if your_turn {
            "YOU"@
        } else {
            "OPP"@
        }) + (match maybe_uid {
            Some(uid) => ":"@ + uid@,
            None => Seq::<char>::empty(),
        }),
        ServerMessage::GameOver(you_win) => "GAME_OVER:"@ + (if you_win {
            "YOU"@
        } else {
            "OPP"@
        }),
        ServerMessage::LobbyClosing => "LOBBY_CLOSING"@,
        ServerMessage::Okay => "OKAY"@,
        ServerMessage::Pong => "PONG"@,
        ServerMessage::ReadyForGamePing => "READY_PING"@,
        ServerMessage::Error(maybe_e) => match maybe_e {
            Some(e) => "ERROR:"@ + spec_err_text(e),
            None => "ERROR"@,
        },
        ServerMessage::BattleReq(uid, gid) => "BATTLE_REQ:"@ + uid@ + ":"@ + gid.chars(),
        ServerMessage::CurrentServerState(n, waiting) => "CURRENT_SERVER_STATE:"@ + digits_of(
            n as nat,
        ) + ":"@ + bool_text(waiting),
        ServerMessage::ChatMessage(is_global, msg, maybe_sender) => "CHAT_MSG:"@ + bool_text(
            is_global,
        ) + ":"@ + b64_of(encode_utf8(msg@)) + ":"@ + (match maybe_sender {
            Some(sender) => sender@,
            None => Seq::<char>::empty(),
        }),
        ServerMessage::ChatRead(is_global) => "CHAT_READ:"@ + bool_text(is_global),
    }
}

/// The wire text of an outgoing frame.
pub open spec fn spec_packet_out(p: ReliablePacketOut) -> Seq<char> {
    match p {
        ReliablePacketOut::Ack(id) => "ACK::"@ + digits_of(id as nat),
        ReliablePacketOut::Msg { id, msg, retry_count: _ } => "MSG::"@ + digits_of(id as nat)
            + "::"@ + spec_server_msg(msg),
        ReliablePacketOut::Error(e) => "ERR::"@ + spec_rel_err_text(e),
    }
}

/// The wire text of a HELLO answer.
pub open spec fn spec_hello_out(h: HelloOut) -> Seq<char> {
    match h {
        HelloOut::Accepted(token, is_new) => "HELLO::"@ + (if is_new {
            "NEW"@
        } else {
            "FOUND"@
        }) + "::"@ + token@,
        HelloOut::OutDated => "HELLO::OUTDATED"@,
    }
}

impl SrvMsgError {
    pub fn serialize(self) -> (r: String)
        ensures
            r@ == spec_err_text(self),
    {
        let text: &str = match self {
            SrvMsgError::Internal => "Internal",
            SrvMsgError::NotYourTurn => "NotYourTurn",
            SrvMsgError::NotInLobby => "NotInLobby",
            SrvMsgError::LobbyNotFound => "LobbyNotFound",
            SrvMsgError::LobbyFull => "LobbyFull",
            SrvMsgError::InvalidColumn => "InvalidColumn",
            SrvMsgError::GameNotStarted => "GameNotStarted",
            SrvMsgError::AlreadyInLobby => "AlreadyInLobby",
            SrvMsgError::GameNotOver => "GameNotOver",
            SrvMsgError::IncorrectCredentials => "IncorrectCredentials",
            SrvMsgError::NotLoggedIn => "NotLoggedIn",
            SrvMsgError::UserNotPlaying => "UserNotPlaying",
            SrvMsgError::NoSuchUser => "NoSuchUser",
            SrvMsgError::AlreadyPlaying => "AlreadyPlaying",
        };
        text.to_owned()
    }
}

impl ReliabilityError {
    pub fn serialize(self) -> (r: String)
        ensures
            r@ == spec_rel_err_text(self),
    {
        let text: &str = match self {
            ReliabilityError::InvalidContent => "INVALID_CONTENT",
            ReliabilityError::InvalidFormat => "INVALID_FORMAT",
            ReliabilityError::UnknownMessage => "UNKNOWN_MESSAGE",
        };
        text.to_owned()
    }
}

fn bool_string(b: bool) -> (r: String)
    ensures
        r@ == bool_text(b),
{
    if b {
        "true".to_owned()
    } else {
        "false".to_owned()
    }
}

impl ServerMessage {
    pub fn serialize(&self) -> (r: String)
        ensures
            r@ == spec_server_msg(*self),
    {
        match self {
            ServerMessage::PlaceChip(col) => {
                let mut s = "PC:".to_owned();
                s.append(usize_to_string(*col).as_str());
                s
            },
            ServerMessage::OpponentLeaving => "OPP_LEAVING".to_owned(),
            ServerMessage::OpponentJoining => "OPP_JOINED".to_owned(),
            ServerMessage::LobbyResponse(gid) => {
                let mut s = "LOBBY_ID:".to_owned();
                s.append(gid.to_string().as_str());
                s
            },
            ServerMessage::GameStart(your_turn, maybe_uid) => {
                let mut s = "GAME_START:".to_owned();
                s.append(if *your_turn { "YOU" } else { "OPP" });
                match maybe_uid {
                    Some(uid) => {
                        s.append(":");
                        s.append(uid.as_str());
                    },
                    None => {},
                }
                s
            },
            ServerMessage::GameOver(you_win) => {
                let mut s = "GAME_OVER:".to_owned();
                s.append(if *you_win { "YOU" } else { "OPP" });
                s
            },
            ServerMessage::LobbyClosing => "LOBBY_CLOSING".to_owned(),
            ServerMessage::Okay => "OKAY".to_owned(),
            ServerMessage::Pong => "PONG".to_owned(),
            ServerMessage::ReadyForGamePing => "READY_PING".to_owned(),
            ServerMessage::Error(maybe_e) => {
                match maybe_e {
                    Some(e) => {
                        let mut s = "ERROR:".to_owned();
                        s.append(e.serialize().as_str());
                        s
                    },
                    None => "ERROR".to_owned(),
                }
            },
            ServerMessage::BattleReq(uid, gid) => {
                let mut s = "BATTLE_REQ:".to_owned();
                s.append(uid.to_string().as_str());
                s.append(":");
                s.append(gid.to_string().as_str());
                s
            },
            ServerMessage::CurrentServerState(n, waiting) => {
                let mut s = "CURRENT_SERVER_STATE:".to_owned();
                s.append(usize_to_string(*n).as_str());
                s.append(":");
                s.append(bool_string(*waiting).as_str());
                s
            },
            ServerMessage::ChatMessage(is_global, msg, maybe_sender) => {
                let mut s = "CHAT_MSG:".to_owned();
                s.append(bool_string(*is_global).as_str());
                s.append(":");
                s.append(encode_chat_payload(msg.as_str()).as_str());
                s.append(":");
                match maybe_sender {
                    Some(sender) => {
                        s.append(sender.as_str());
                    },
                    None => {},
                }
                s
            },
            ServerMessage::ChatRead(is_global) => {
                let mut s = "CHAT_READ:".to_owned();
                s.append(bool_string(*is_global).as_str());
                s
            },
        }
    }
}

impl ServerMessage {
    /// A copy that writes the same bytes on the wire.
    pub fn duplicate(&self) -> (r: ServerMessage)
        ensures
            spec_server_msg(r) == spec_server_msg(*self),
    {
        match self {
            ServerMessage::PlaceChip(col) => ServerMessage::PlaceChip(*col),
            ServerMessage::OpponentLeaving => ServerMessage::OpponentLeaving,
            ServerMessage::OpponentJoining => ServerMessage::OpponentJoining,
            ServerMessage::LobbyResponse(gid) => ServerMessage::LobbyResponse(*gid),
            ServerMessage::GameStart(your_turn, maybe_uid) => ServerMessage::GameStart(
                *your_turn,
                match maybe_uid {
                    Some(uid) => Some(uid.clone()),
                    None => None,
                },
            ),
            ServerMessage::GameOver(you_win) => ServerMessage::GameOver(*you_win),
            ServerMessage::LobbyClosing => ServerMessage::LobbyClosing,
            ServerMessage::Okay => ServerMessage::Okay,
            ServerMessage::Pong => ServerMessage::Pong,
            ServerMessage::ReadyForGamePing => ServerMessage::ReadyForGamePing,
            ServerMessage::Error(maybe_e) => ServerMessage::Error(*maybe_e),
            ServerMessage::BattleReq(uid, gid) => ServerMessage::BattleReq(uid.duplicate(), *gid),
            ServerMessage::CurrentServerState(n, waiting) => ServerMessage::CurrentServerState(
                *n,
                *waiting,
            ),
            ServerMessage::ChatMessage(is_global, msg, maybe_sender) => ServerMessage::ChatMessage(
                *is_global,
                msg.clone(),
                match maybe_sender {
                    Some(sender) => Some(sender.clone()),
                    None => None,
                },
            ),
            ServerMessage::ChatRead(is_global) => ServerMessage::ChatRead(*is_global),
        }
    }
}

impl ReliablePacketOut {
    pub fn serialize(self) -> (r: String)
        ensures
            r@ == spec_packet_out(self),
    {
        match self {
            ReliablePacketOut::Ack(id) => {
                let mut s = "ACK::".to_owned();
                s.append(usize_to_string(id).as_str());
                s
            },
            ReliablePacketOut::Msg { id, msg, retry_count: _ } => {
                let mut s = "MSG::".to_owned();
                s.append(usize_to_string(id).as_str());
                s.append("::");
                s.append(msg.serialize().as_str());
                s
            },
            ReliablePacketOut::Error(e) => {
                let mut s = "ERR::".to_owned();
                s.append(e.serialize().as_str());
                s
            },
        }
    }
}

impl HelloOut {
    pub fn serialize(self) -> (r: String)
        ensures
            r@ == spec_hello_out(self),
    {
        match self {
            HelloOut::Accepted(token, is_new) => {
                let mut s = "HELLO::".to_owned();
                s.append(if is_new { "NEW" } else { "FOUND" });
                s.append("::");
                s.append(token.as_str());
                s
            },
            HelloOut::OutDated => "HELLO::OUTDATED".to_owned(),
        }
    }
}

/// Encoding a chat message and decoding the result yields the message back.
pub fn chat_payload_round_trip(msg: &str) -> (r: Option<String>)
    ensures
        r matches Some(m) && m@ == msg@,
{
    let encoded = encode_chat_payload(msg);
    let decoded = decode_chat_payload(encoded.as_str());
    proof {
        vstd::utf8::encode_utf8_valid_utf8(msg@);
        vstd::utf8::encode_utf8_decode_utf8(msg@);
    }
    decoded
}

/// The wire round trip of chat: a `CHAT_MSG` command built from any message
/// parses back to exactly that message, whenever it fits the frame length.
pub fn parse_encoded_chat_command(m: &str) -> (r: Option<PlayerMessage>)
    ensures
        match r {
            Some(pm) => pm matches PlayerMessage::ChatMessage(t) && t@ == m@,
            None => ("CHAT_MSG:"@ + b64_of(encode_utf8(m@))).len() > 1000,
        },
{
    let mut w = "CHAT_MSG:".to_owned();
    let payload = encode_chat_payload(m);
    w.append(payload.as_str());
    let parsed = PlayerMessage::parse(w.as_str());
    proof {
        reveal_strlit("CHAT_MSG:");
        vstd::utf8::encode_utf8_valid_utf8(m@);
        vstd::utf8::encode_utf8_decode_utf8(m@);
        let s = spec_upper(w@);
        assert(w@.take(9) =~= "CHAT_MSG:"@);
        assert(spec_upper_char('C') == 'C' && spec_upper_char('H') == 'H' && spec_upper_char(
            'A',
        ) == 'A' && spec_upper_char('T') == 'T' && spec_upper_char('_') == '_'
            && spec_upper_char('M') == 'M' && spec_upper_char('S') == 'S' && spec_upper_char(
            'G',
        ) == 'G' && spec_upper_char(':') == ':');
        assert(s.take(9) =~= "CHAT_MSG:"@) by {
            assert forall|j: int| 0 <= j < 9 implies s.take(9)[j] == "CHAT_MSG:"@[j] by {
                assert(s[j] == spec_upper_char(w@[j]));
                assert(w@[j] == "CHAT_MSG:"@[j]);
            }
        }
        assert(w@.skip(9) =~= b64_of(encode_utf8(m@)));
        match &parsed {
            Some(_) => {
                // only the chat alternative of the grammar can apply: every
                // other command starts differently
                reveal_strlit("PC:");
                reveal_strlit("REQ_LOBBY");
                reveal_strlit("REQ_WW");
                reveal_strlit("JOIN_LOBBY:");
                reveal_strlit("LEAVE");
                reveal_strlit("PING");
                reveal_strlit("PLAY_AGAIN");
                reveal_strlit("LOGOUT");
                reveal_strlit("READY_PONG");
                reveal_strlit("LOGIN:");
                reveal_strlit("BATTLE_REQ:");
                reveal_strlit("CHAT_READ");
                assert(s[0] == spec_upper_char(w@[0]) && w@[0] == 'C');
                assert(s[5] == spec_upper_char(w@[5]) && w@[5] == 'M');
                assert(s.len() == w@.len() && s.len() >= 9);
                assert(s.take(3) != "PC:"@) by {
                    assert(s.take(3)[0] == s[0]);
                    assert("PC:"@[0] == 'P');
                }
                assert(s.take(6) != "LOGIN:"@) by {
                    assert(s.take(6)[0] == s[0]);
                    assert("LOGIN:"@[0] == 'L');
                }
                if s.len() >= 11 {
                    assert(s.take(11) != "JOIN_LOBBY:"@) by {
                        assert(s.take(11)[0] == s[0]);
                        assert("JOIN_LOBBY:"@[0] == 'J');
                    }
                    assert(s.take(11) != "BATTLE_REQ:"@) by {
                        assert(s.take(11)[0] == s[0]);
                        assert("BATTLE_REQ:"@[0] == 'B');
                    }
                }
                assert(s != "REQ_LOBBY"@) by {
                    assert("REQ_LOBBY"@[0] == 'R');
                }
                assert(s != "CHAT_READ"@) by {
                    assert("CHAT_READ"@[5] == 'R');
                }
            },
            None => {
                if w@.len() <= 1000 {
                    assert(player_parseable(w@));
                }
            },
        }
    }
    parsed
}

// ---------------------------------------------------------------------------
// Parsing
// ---------------------------------------------------------------------------

/// A non-empty digit string whose value fits the machine word.
pub open spec fn digits_ok(s: Seq<char>) -> bool {
    s.len() > 0 && all_digits(s) && digits_val(s) <= usize::MAX
}

/// `m` is the logical message that the payload text `orig` denotes.
pub open spec fn parse_player_ok(orig: Seq<char>, m: PlayerMessage) -> bool {
    let s = spec_upper(orig);
    &&& s.len() <= 1000
    &&& {
        ||| (s.len() == 4 && s.take(3) == "PC:"@ && is_ascii_digit_char(s[3]) && m
            == PlayerMessage::PlaceChip(digit_val(s[3]) as usize))
        ||| (s == "REQ_LOBBY"@ && m == PlayerMessage::LobbyRequest(LobbyKind::Private))
        ||| (s == "REQ_WW"@ && m == PlayerMessage::LobbyRequest(LobbyKind::Public))
        ||| (s.len() == 15 && s.take(11) == "JOIN_LOBBY:"@ && m == PlayerMessage::LobbyJoin(
            (GameId { c0: s[11], c1: s[12], c2: s[13], c3: s[14] }),
        ))
        ||| (s == "LEAVE"@ && m == PlayerMessage::Leaving)
        ||| (s == "PING"@ && m == PlayerMessage::Ping)
        ||| (s == "PLAY_AGAIN"@ && m == PlayerMessage::PlayAgainRequest)
        ||| (s == "LOGOUT"@ && m == PlayerMessage::Logout)
        ||| (s == "READY_PONG"@ && m == PlayerMessage::ReadyForGamePong)
        ||| (s.len() >= 6 && s.take(6) == "LOGIN:"@ && (m matches PlayerMessage::Login(t)
            && t@ == orig.skip(6)))
        ||| (orig.len() == 23 && s.take(11) == "BATTLE_REQ:"@ && user_id_text_ok(orig.skip(11))
            && (m matches PlayerMessage::BattleReq(u) && u@ == crate::text::spec_lower(
            orig.skip(11),
        )))
        ||| (s.len() >= 9 && s.take(9) == "CHAT_MSG:"@ && no_colon(orig.skip(9)) && (match
            b64_decode_of(orig.skip(9)) {
            Some(bytes) => valid_utf8(bytes) && (m matches PlayerMessage::ChatMessage(t) && t@
                == decode_utf8(bytes)),
            None => false,
        }))
        ||| (s == "CHAT_READ"@ && m == PlayerMessage::ChatRead)
    }
}

/// Some logical message can be read from the payload text.
pub open spec fn player_parseable(orig: Seq<char>) -> bool {
    let s = spec_upper(orig);
    &&& s.len() <= 1000
    &&& {
        ||| (s.len() == 4 && s.take(3) == "PC:"@ && is_ascii_digit_char(s[3]))
        ||| s == "REQ_LOBBY"@
        ||| s == "REQ_WW"@
        ||| (s.len() == 15 && s.take(11) == "JOIN_LOBBY:"@)
        ||| s == "LEAVE"@
        ||| s == "PING"@
        ||| s == "PLAY_AGAIN"@
        ||| s == "LOGOUT"@
        ||| s == "READY_PONG"@
        ||| (s.len() >= 6 && s.take(6) == "LOGIN:"@)
        ||| (orig.len() == 23 && s.take(11) == "BATTLE_REQ:"@ && user_id_text_ok(orig.skip(11)))
        ||| (s.len() >= 9 && s.take(9) == "CHAT_MSG:"@ && no_colon(orig.skip(9)) && (match
            b64_decode_of(orig.skip(9)) {
            Some(bytes) => valid_utf8(bytes),
            None => false,
        }))
        ||| s == "CHAT_READ"@
    }
}

impl PlayerMessage {
    /// Reads one logical message; accepts exactly the texts that
    /// `player_parseable` describes.
    #[verifier::rlimit(50)]
    pub fn parse(orig: &str) -> (r: Option<PlayerMessage>)
        ensures
            match r {
                Some(m) => parse_player_ok(orig@, m),
                None => !player_parseable(orig@),
            },
    {
        proof {
            reveal_strlit("PC:");
            reveal_strlit("REQ_LOBBY");
            reveal_strlit("REQ_WW");
            reveal_strlit("JOIN_LOBBY:");
            reveal_strlit("LEAVE");
            reveal_strlit("PING");
            reveal_strlit("PLAY_AGAIN");
            reveal_strlit("LOGOUT");
            reveal_strlit("READY_PONG");
            reveal_strlit("LOGIN:");
            reveal_strlit("BATTLE_REQ:");
            reveal_strlit("CHAT_MSG:");
            reveal_strlit("CHAT_READ");
        }
        let ov = str_to_chars(orig);
        proof {
            assert(spec_upper(orig@).len() == orig@.len());
        }
        if ov.len() > 1000 {
            return None;
        }
        let up = upper_chars(&ov);
        let n = up.len();
        if n == 4 && chars_prefix_str(&up, "PC:") {
            let c = up[3];
            if '0' <= c && c <= '9' {
                let d = ((c as u32) - 48) as usize;
                return Some(PlayerMessage::PlaceChip(d));
            }
            proof {
                let s = spec_upper(orig@);
                assert(s[0] == 'P') by { assert(s.take(3)[0] == 'P'); }
                assert(s[1] == 'C') by { assert(s.take(3)[1] == 'C'); }
                assert(s[2] == ':') by { assert(s.take(3)[2] == ':'); }
            }
            return None;
        }
        if chars_eq_str(&up, "REQ_LOBBY") {
            return Some(PlayerMessage::LobbyRequest(LobbyKind::Private));
        }
        if chars_eq_str(&up, "REQ_WW") {
            return Some(PlayerMessage::LobbyRequest(LobbyKind::Public));
        }
        if n == 15 && chars_prefix_str(&up, "JOIN_LOBBY:") {
            let gid = GameId { c0: up[11], c1: up[12], c2: up[13], c3: up[14] };
            return Some(PlayerMessage::LobbyJoin(gid));
        }
        if chars_eq_str(&up, "LEAVE") {
            return Some(PlayerMessage::Leaving);
        }
        if chars_eq_str(&up, "PING") {
            return Some(PlayerMessage::Ping);
        }
        if chars_eq_str(&up, "PLAY_AGAIN") {
            return Some(PlayerMessage::PlayAgainRequest);
        }
        if chars_eq_str(&up, "LOGOUT") {
            return Some(PlayerMessage::Logout);
        }
        if chars_eq_str(&up, "READY_PONG") {
            return Some(PlayerMessage::ReadyForGamePong);
        }
        if chars_prefix_str(&up, "LOGIN:") {
            let token_chars = char_range(&ov, 6, ov.len());
            let token = chars_to_string(&token_chars);
            proof {
                assert(ov@.subrange(6, ov@.len() as int) =~= ov@.skip(6));
            }
            return Some(PlayerMessage::Login(token));
        }
        if ov.len() == 23 && chars_prefix_str(&up, "BATTLE_REQ:") {
            let uid_chars = char_range(&ov, 11, 23);
            let uid_text = chars_to_string(&uid_chars);
            proof {
                assert(ov@.subrange(11, 23) =~= ov@.skip(11));
            }
            match UserId::from_str(uid_text.as_str()) {
                Ok(uid) => {
                    return Some(PlayerMessage::BattleReq(uid));
                },
                _ => {
                    proof {
                        let s = spec_upper(orig@);
                        assert(s[0] == 'B') by { assert(s.take(11)[0] == 'B'); }
                        assert(s.take(6) != "LOGIN:"@) by {
                            assert(s.take(6)[0] == s[0]);
                            assert("LOGIN:"@[0] == 'L');
                        }
                        assert(s.take(9) != "CHAT_MSG:"@) by {
                            assert(s.take(9)[0] == s[0]);
                            assert("CHAT_MSG:"@[0] == 'C');
                        }
                    }
                    return None;
                },
            }
        }
        if chars_prefix_str(&up, "CHAT_MSG:") {
            proof {
                let s = spec_upper(orig@);
                assert(s[0] == 'C') by { assert(s.take(9)[0] == 'C'); }
                assert(s[5] == 'M') by { assert(s.take(9)[5] == 'M'); }
            }
            if !no_colon_in(&ov, 9) {
                return None;
            }
            let payload_chars = char_range(&ov, 9, ov.len());
            let payload = chars_to_string(&payload_chars);
            proof {
                assert(ov@.subrange(9, ov@.len() as int) =~= ov@.skip(9));
            }
            match decode_chat_payload(payload.as_str()) {
                Some(text) => {
                    return Some(PlayerMessage::ChatMessage(text));
                },
                None => {
                    return None;
                },
            }
        }
        if chars_eq_str(&up, "CHAT_READ") {
            return Some(PlayerMessage::ChatRead);
        }
        None
    }
}

/// There is a separator at or after position `k`.
pub open spec fn has_sep_from(s: Seq<char>, k: int) -> bool {
    exists|j: int| k <= j && sep_at(s, j)
}

/// The text is `ACK::` followed by a single field.
pub open spec fn ack_frame(o: Seq<char>) -> bool {
    o.len() >= 5 && o.take(5) == "ACK::"@ && !has_sep_from(o, 5)
}

/// `i` is the position of the separator between the id field and the
/// payload of a `MSG` frame.
pub open spec fn msg_frame_at(o: Seq<char>, i: int) -> bool {
    &&& 5 <= i
    &&& sep_at(o, i)
    &&& forall|j: int| 5 <= j < i ==> !sep_at(o, j)
    &&& !has_sep_from(o, i + 2)
}

/// The text is `MSG::` followed by exactly two fields.
pub open spec fn msg_frame(o: Seq<char>) -> bool {
    o.len() >= 5 && o.take(5) == "MSG::"@ && exists|i: int| msg_frame_at(o, i)
}

pub proof fn lemma_msg_frame_at_unique(o: Seq<char>, i1: int, i2: int)
    requires
        msg_frame_at(o, i1),
        msg_frame_at(o, i2),
    ensures
        i1 == i2,
{
}

impl ReliablePacketIn {
    /// Reads one frame.  `ACK` and `MSG` frames with a malformed id give
    /// `InvalidFormat`, a `MSG` payload that carries no message gives
    /// `InvalidContent`, and every other text gives `UnknownMessage`.
    pub fn parse(orig: &str) -> (r: Result<ReliablePacketIn, ReliabilityError>)
        ensures
            match r {
                Ok(p) => match p {
                    ReliablePacketIn::Ack(id) => {
                        &&& ack_frame(orig@)
                        &&& digits_ok(orig@.skip(5))
                        &&& id == digits_val(orig@.skip(5))
                    },
                    ReliablePacketIn::Msg(id, m) => {
                        &&& msg_frame(orig@)
                        &&& {
                            let i = choose|i: int| msg_frame_at(orig@, i);
                            &&& digits_ok(orig@.subrange(5, i))
                            &&& id == digits_val(orig@.subrange(5, i))
                            &&& parse_player_ok(orig@.skip(i + 2), m)
                        }
                    },
                },
                Err(e) => match e {
                    ReliabilityError::InvalidFormat => {
                        ||| (ack_frame(orig@) && !digits_ok(orig@.skip(5)))
                        ||| (msg_frame(orig@) && {
                            let i = choose|i: int| msg_frame_at(orig@, i);
                            !digits_ok(orig@.subrange(5, i))
                        })
                    },
                    ReliabilityError::InvalidContent => msg_frame(orig@) && {
                        let i = choose|i: int| msg_frame_at(orig@, i);
                        digits_ok(orig@.subrange(5, i)) && !player_parseable(orig@.skip(i + 2))
                    },
                    ReliabilityError::UnknownMessage => !ack_frame(orig@) && !msg_frame(orig@),
                },
            },
    {
        proof {
            reveal_strlit("ACK::");
            reveal_strlit("MSG::");
            assert("ACK::"@[0] == 'A');
            assert("MSG::"@[0] == 'M');
        }
        let ov = str_to_chars(orig);
        let total = ov.len();
        if chars_prefix_str(&ov, "ACK::") {
            match find_sep(&ov, 5) {
                None => {
                    match parse_digits(&ov, 5, ov.len()) {
                        Some(id) => {
                            proof {
                                assert(ov@.subrange(5, ov@.len() as int) =~= ov@.skip(5));
                            }
                            Ok(ReliablePacketIn::Ack(id))
                        },
                        None => {
                            proof {
                                assert(ov@.subrange(5, ov@.len() as int) =~= ov@.skip(5));
                            }
                            Err(ReliabilityError::InvalidFormat)
                        },
                    }
                },
                Some(_) => Err(ReliabilityError::UnknownMessage),
            }
        } else if chars_prefix_str(&ov, "MSG::") {
            match find_sep(&ov, 5) {
                Some(i) => {
                    proof {
                        assert(i + 2 <= total);
                    }
                    match find_sep(&ov, i + 2) {
                        None => {
                            proof {
                                assert(msg_frame_at(ov@, i as int));
                                let iw = choose|iw: int| msg_frame_at(ov@, iw);
                                lemma_msg_frame_at_unique(ov@, iw, i as int);
                            }
                            match parse_digits(&ov, 5, i) {
                                Some(id) => {
                                    let payload_chars = char_range(&ov, i + 2, ov.len());
                                    let payload = chars_to_string(&payload_chars);
                                    proof {
                                        assert(ov@.subrange(i + 2, ov@.len() as int) =~= ov@.skip(
                                            i + 2,
                                        ));
                                    }
                                    match PlayerMessage::parse(payload.as_str()) {
                                        Some(m) => Ok(ReliablePacketIn::Msg(id, m)),
                                        None => Err(ReliabilityError::InvalidContent),
                                    }
                                },
                                None => Err(ReliabilityError::InvalidFormat),
                            }
                        },
                        Some(j2) => {
                            proof {
                                if msg_frame(ov@) {
                                    let iw = choose|iw: int| msg_frame_at(ov@, iw);
                                    assert(msg_frame_at(ov@, iw));
                                    if iw < i {
                                        assert(!sep_at(ov@, iw));
                                    } else if iw > i {
                                        assert(!sep_at(ov@, i as int));
                                    }
                                    assert(iw == i);
                                    assert(sep_at(ov@, j2 as int));
                                }
                            }
                            Err(ReliabilityError::UnknownMessage)
                        },
                    }
                },
                None => Err(ReliabilityError::UnknownMessage),
            }
        } else {
            Err(ReliabilityError::UnknownMessage)
        }
    }
}

/// `k` is the position of the colon of a `REQ:<token>` resume request.
pub open spec fn req_token_at(third: Seq<char>, k: int) -> bool {
    &&& 0 <= k < third.len()
    &&& third[k] == ':'
    &&& forall|j: int| 0 <= j < third.len() && j != k ==> third[j] != ':'
    &&& third.take(k) == "REQ"@
    &&& third.len() - k - 1 == 32
}

/// `i` is the position of the separator between the version field and the
/// request field of a HELLO frame.
pub open spec fn hello_frame_at(o: Seq<char>, i: int) -> bool {
    &&& 7 <= i
    &&& sep_at(o, i)
    &&& forall|j: int| 7 <= j < i ==> !sep_at(o, j)
    &&& !has_sep_from(o, i + 2)
}

/// The text is `HELLO::` followed by exactly two fields.
pub open spec fn hello_frame(o: Seq<char>) -> bool {
    o.len() >= 7 && o.take(7) == "HELLO::"@ && exists|i: int| hello_frame_at(o, i)
}

pub proof fn lemma_hello_frame_at_unique(o: Seq<char>, i1: int, i2: int)
    requires
        hello_frame_at(o, i1),
        hello_frame_at(o, i2),
    ensures
        i1 == i2,
{
}

/// What the request field asks for: `None` means a fresh session, including
/// every malformed request field; a well-formed `REQ:<32-char token>` names
/// the session to resume.
pub open spec fn hello_token_spec(third: Seq<char>, t: Option<String>) -> bool {
    match t {
        Some(tok) => exists|k: int| #[trigger] req_token_at(third, k) && tok@ == third.skip(k + 1),
        None => !(exists|k: int| req_token_at(third, k)),
    }
}

impl HelloIn {
    /// Reads the client's opening frame: `HELLO::<version>::<request>`.
    pub fn parse(orig: &str) -> (r: Option<HelloIn>)
        ensures
            match r {
                Some(h) => {
                    &&& hello_frame(orig@)
                    &&& {
                        let i = choose|i: int| hello_frame_at(orig@, i);
                        &&& digits_ok(orig@.subrange(7, i))
                        &&& h.protocol_version == digits_val(orig@.subrange(7, i))
                        &&& hello_token_spec(orig@.skip(i + 2), h.maybe_session_token)
                    }
                },
                None => !hello_frame(orig@) || {
                    let i = choose|i: int| hello_frame_at(orig@, i);
                    !digits_ok(orig@.subrange(7, i))
                },
            },
    {
        proof {
            reveal_strlit("HELLO::");
            reveal_strlit("REQ");
        }
        let ov = str_to_chars(orig);
        if !chars_prefix_str(&ov, "HELLO::") {
            return None;
        }
        let total = ov.len();
        let i = match find_sep(&ov, 7) {
            Some(i) => i,
            None => {
                return None;
            },
        };
        proof {
            assert(i + 2 <= total);
        }
        match find_sep(&ov, i + 2) {
            Some(j2) => {
                proof {
                    if hello_frame(ov@) {
                        let iw = choose|iw: int| hello_frame_at(ov@, iw);
                        assert(hello_frame_at(ov@, iw));
                        if iw < i {
                            assert(!sep_at(ov@, iw));
                        } else if iw > i {
                            assert(!sep_at(ov@, i as int));
                        }
                        assert(iw == i);
                        assert(sep_at(ov@, j2 as int));
                    }
                }
                return None;
            },
            None => {},
        }
        proof {
            assert(hello_frame_at(ov@, i as int));
            let iw = choose|iw: int| hello_frame_at(ov@, iw);
            lemma_hello_frame_at_unique(ov@, iw, i as int);
        }
        let version = match parse_digits(&ov, 7, i) {
            Some(v) => v,
            None => {
                return None;
            },
        };
        let third_start = i + 2;
        let maybe_session_token = Self::parse_request_field(&ov, third_start);
        Some(HelloIn { protocol_version: version, maybe_session_token })
    }

    /// Reads the request field that starts at `from`.
    fn parse_request_field(ov: &Vec<char>, from: usize) -> (t: Option<String>)
        requires
            from <= ov@.len(),
        ensures
            hello_token_spec(ov@.skip(from as int), t),
    {
        proof {
            reveal_strlit("REQ");
        }
        let ghost third = ov@.skip(from as int);
        let n = ov.len();
        // find the single colon of REQ:<token>
        let mut k: usize = from;
        let mut colon: Option<usize> = None;
        while k < n
            invariant
                from <= k <= n,
                n == ov@.len(),
                third == ov@.skip(from as int),
                match colon {
                    Some(c) => {
                        &&& from <= c < k
                        &&& ov@[c as int] == ':'
                        &&& forall|j: int| from <= j < k && j != c ==> ov@[j] != ':'
                    },
                    None => forall|j: int| from <= j < k ==> ov@[j] != ':',
                },
            decreases n - k,
        {
            if ov[k] == ':' {
                match colon {
                    Some(_) => {
                        // a second colon: no well-formed resume request
                        proof {
                            assert forall|kk: int| !req_token_at(third, kk) by {
                                if req_token_at(third, kk) {
                                    let c0 = colon->Some_0 as int - from;
                                    assert(third[c0] == ':');
                                    assert(third[k - from] == ':');
                                }
                            }
                        }
                        return None;
                    },
                    None => {
                        colon = Some(k);
                    },
                }
            }
            k += 1;
        }
        let c = match colon {
            Some(c) => c,
            None => {
                proof {
                    assert forall|kk: int| !req_token_at(third, kk) by {
                        if req_token_at(third, kk) {
                            assert(third[kk] == ':');
                        }
                    }
                }
                return None;
            },
        };
        // prefix before the colon must be REQ and the token must be 32 chars
        let prefix_chars = char_range(ov, from, c);
        let prefix_ok = chars_eq_str(&prefix_chars, "REQ");
        let token_len = n - c - 1;
        if !prefix_ok || token_len != 32 {
            proof {
                assert forall|kk: int| !req_token_at(third, kk) by {
                    if req_token_at(third, kk) {
                        assert(third[kk] == ':');
                        assert(kk == c - from);
                        assert(third.take(kk) =~= ov@.subrange(from as int, c as int));
                    }
                }
            }
            return None;
        }
        let token_chars = char_range(ov, c + 1, n);
        let token = chars_to_string(&token_chars);
        proof {
            let kk = c - from;
            assert(third[kk] == ':');
            assert(third.take(kk) =~= ov@.subrange(from as int, c as int));
            assert(req_token_at(third, kk));
            assert(token@ =~= third.skip(kk + 1));
        }
        Some(token)
    }
}

} // verus!

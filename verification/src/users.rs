//! User identities, credentials and the public views of accounts and
//! friendships.

use vstd::prelude::*;
use crate::rng::random_below;
use vstd::string::StringSliceAdditionalSpecFns;
use crate::text::{
    is_lower_hex_char, spec_lower, spec_lower_char, lower_char, chars_to_string,
};

verus! {

pub const USER_ID_LEN: usize = 12;

/// Text that `UserId::from_str` accepts: twelve hex characters in either
/// case.
pub open spec fn user_id_text_ok(s: Seq<char>) -> bool {
    s.len() == 12 && forall|i: int|
        0 <= i < 12 ==> is_lower_hex_char(spec_lower_char(#[trigger] s[i]))
}

/// A 12-character lowercase-hex user identifier, ordered lexicographically.
#[derive(Clone, Debug)]
pub struct UserId {
    chars: Vec<char>,
}

impl View for UserId {
    type V = Seq<char>;

    closed spec fn view(&self) -> Seq<char> {
        self.chars@
    }
}

impl UserId {
    pub open spec fn wf(self) -> bool {
        self@.len() == 12 && forall|i: int| 0 <= i < 12 ==> is_lower_hex_char(#[trigger] self@[i])
    }

    /// A fresh random identifier.
    pub fn new() -> (r: UserId)
        ensures
            r.wf(),
    {
        let mut chars: Vec<char> = Vec::new();
        let mut i: usize = 0;
        while i < USER_ID_LEN
            invariant
                i <= 12,
                chars@.len() == i,
                forall|j: int| 0 <= j < i ==> is_lower_hex_char(#[trigger] chars@[j]),
            decreases 12 - i,
        {
            chars.push(crate::text::hex_digit_char(random_below(16)));
            i += 1;
        }
        UserId { chars }
    }

    /// Accepts exactly twelve hex characters, in either case, and stores
    /// them lower-cased.
    pub fn from_str(s: &str) -> (r: Result<UserId, &'static str>)
        ensures
            match r {
                Ok(u) => {
                    &&& user_id_text_ok(s@)
                    &&& u.wf()
                    &&& u@ == spec_lower(s@)
                },
                Err(_) => !user_id_text_ok(s@),
            },
    {
        let n = s.unicode_len();
        if n != USER_ID_LEN {
            return Err("Could not deserialize UserId");
        }
        let mut chars: Vec<char> = Vec::new();
        let mut i: usize = 0;
        while i < USER_ID_LEN
            invariant
                i <= 12,
                s@.len() == 12,
                chars@.len() == i,
                forall|j: int| 0 <= j < i ==> chars@[j] == spec_lower_char(#[trigger] s@[j]),
                forall|j: int| 0 <= j < i ==> is_lower_hex_char(spec_lower_char(#[trigger] s@[j])),
            decreases 12 - i,
        {
            let c = lower_char(s.get_char(i));
            let ok = ('0' <= c && c <= '9') || ('a' <= c && c <= 'f');
            if !ok {
                return Err("Invalid character");
            }
            chars.push(c);
            i += 1;
        }
        let u = UserId { chars };
        proof {
            assert(u@ =~= spec_lower(s@));
        }
        Ok(u)
    }

    /// The identifier as a plain string.
    pub fn to_string(&self) -> (r: String)
        ensures
            r@ == self@,
    {
        chars_to_string(&self.chars)
    }

    /// A copy that reads as the same identifier.
    pub fn duplicate(&self) -> (r: UserId)
        ensures
            r@ == self@,
    {
        let mut chars: Vec<char> = Vec::new();
        let mut i: usize = 0;
        while i < self.chars.len()
            invariant
                i <= self@.len(),
                chars@ == self@.take(i as int),
            decreases self@.len() - i,
        {
            chars.push(self.chars[i]);
            proof {
                assert(chars@ =~= self@.take(i + 1));
            }
            i += 1;
        }
        proof {
            assert(self@.take(self@.len() as int) =~= self@);
        }
        UserId { chars }
    }

    /// Lexicographic comparison; on well-formed identifiers this is the
    /// hex-value order.
    pub fn lex_less(&self, other: &UserId) -> (r: bool)
        ensures
            r == spec_lex_less(self@, other@),
    {
        let n: usize = if self.chars.len() < other.chars.len() {
            self.chars.len()
        } else {
            other.chars.len()
        };
        let mut i: usize = 0;
        while i < n
            invariant
                i <= n,
                n == vstd::math::min(self@.len() as int, other@.len() as int),
                forall|j: int| 0 <= j < i ==> self@[j] == other@[j],
            decreases n - i,
        {
            let a = self.chars[i];
            let b = other.chars[i];
            if (a as u32) < (b as u32) {
                proof {
                    lemma_lex_less_unfold(self@, other@, i as int);
                }
                return true;
            }
            if (a as u32) > (b as u32) {
                proof {
                    lemma_lex_not_less_unfold(self@, other@, i as int);
                }
                return false;
            }
            proof {
                vstd::utf8::char_u32_cast(a, a as u32);
                vstd::utf8::char_u32_cast(b, b as u32);
            }
            i += 1;
        }
        proof {
            lemma_lex_prefix(self@, other@, n as int);
        }
        self.chars.len() < other.chars.len()
    }
}

impl PartialEq for UserId {
    fn eq(&self, other: &UserId) -> (r: bool) {
        let mut i: usize = 0;
        if self.chars.len() != other.chars.len() {
            return false;
        }
        while i < self.chars.len()
            invariant
                i <= self@.len(),
                self@.len() == other@.len(),
                forall|j: int| 0 <= j < i ==> self@[j] == other@[j],
            decreases self@.len() - i,
        {
            if self.chars[i] != other.chars[i] {
                return false;
            }
            i += 1;
        }
        proof {
            assert(self@ =~= other@);
        }
        true
    }
}

impl vstd::std_specs::cmp::PartialEqSpecImpl for UserId {
    open spec fn obeys_eq_spec() -> bool {
        true
    }

    open spec fn eq_spec(&self, other: &UserId) -> bool {
        self@ == other@
    }
}

/// Per-user rating state.
#[derive(Clone, Copy, Debug, PartialEq, Eq, Structural)]
pub struct UserGameInfo {
    pub skill_rating: i32,
}

impl UserGameInfo {
    /// Every account starts from the same rating.
    pub fn new() -> (r: UserGameInfo)
        ensures
            r.skill_rating == 1000,
    {
        UserGameInfo { skill_rating: 1000 }
    }
}

/// The outcome of one ranked game.
#[derive(Debug)]
pub struct PlayedGameInfo {
    pub winner: UserId,
    pub loser: UserId,
}

impl PlayedGameInfo {
    pub fn new(winner: UserId, loser: UserId) -> (r: PlayedGameInfo)
        ensures
            r.winner@ == winner@,
            r.loser@ == loser@,
    {
        PlayedGameInfo { winner, loser }
    }
}

/// Whether a game counts towards the rating.
#[derive(Clone, Copy, Debug, PartialEq, Eq, Structural)]
pub enum GameKind {
    Ranked,
    Simple,
}

pub const MIN_PASSWORD_LENGTH: usize = 6;

pub const MAX_PASSWORD_LENGTH: usize = 15;

/// What the Keccak-256 digest of a byte string is; the sha3 crate computes
/// it.
pub uninterp spec fn keccak256_of(bytes: Seq<u8>) -> Seq<u8>;

/// Relies on sha3's Keccak256 (through the Digest trait): a 32-byte digest
/// that depends on the input bytes alone.
#[verifier::external_body]
fn keccak256(bytes: &[u8]) -> (r: Vec<u8>)
    ensures
        r@ == keccak256_of(bytes@),
        r@.len() == 32,
{
    let digest = <sha3::Keccak256 as sha3::digest::Digest>::digest(bytes);
    digest.into_iter().collect()
}

/// A password stored as its Keccak-256 digest.
#[derive(Debug)]
pub struct HashedPassword {
    digest: Vec<u8>,
}

impl View for HashedPassword {
    type V = Seq<u8>;

    closed spec fn view(&self) -> Seq<u8> {
        self.digest@
    }
}

impl HashedPassword {
    /// Hashes a fresh password.
    pub fn new(password: String) -> (r: HashedPassword)
        ensures
            r@ == keccak256_of(vstd::utf8::encode_utf8(password@)),
    {
        let bytes = password.as_str().as_bytes();
        HashedPassword { digest: keccak256(bytes) }
    }

    /// True exactly when the candidate hashes to the stored digest.
    pub fn matches(&self, password: &str) -> (r: bool)
        ensures
            r == (self@ == keccak256_of(vstd::utf8::encode_utf8(password@))),
    {
        let candidate = keccak256(password.as_bytes());
        let mut i: usize = 0;
        if self.digest.len() != candidate.len() {
            return false;
        }
        while i < self.digest.len()
            invariant
                i <= self@.len(),
                self@.len() == candidate@.len(),
                candidate@ == keccak256_of(vstd::utf8::encode_utf8(password@)),
                forall|j: int| 0 <= j < i ==> self@[j] == candidate@[j],
            decreases self@.len() - i,
        {
            if self.digest[i] != candidate[i] {
                return false;
            }
            i += 1;
        }
        proof {
            assert(self@ =~= candidate@);
        }
        true
    }

    /// Reads a digest back from its hex form: accepts exactly the strings
    /// of hex-digit pairs, in either case, and returns the bytes they spell.
    pub fn from_str(text: &str) -> (r: Result<HashedPassword, &'static str>)
        ensures
            match r {
                Ok(h) => {
                    &&& text@.len() % 2 == 0
                    &&& forall|i: int| 0 <= i < text@.len() ==> is_hex_char(#[trigger] text@[i])
                    &&& h@ == spec_hex_bytes(text@)
                },
                Err(_) => text@.len() % 2 != 0 || exists|i: int|
                    0 <= i < text@.len() && !is_hex_char(#[trigger] text@[i]),
            },
    {
        let n = text.unicode_len();
        if n % 2 != 0 {
            return Err("Invalid hex byte");
        }
        let mut digest: Vec<u8> = Vec::new();
        let mut i: usize = 0;
        proof {
            assert(text@.take(0) =~= Seq::<char>::empty());
        }
        while i < n
            invariant
                i % 2 == 0,
                i <= n,
                n % 2 == 0,
                n == text@.len(),
                forall|j: int| 0 <= j < i ==> is_hex_char(#[trigger] text@[j]),
                digest@ == spec_hex_bytes(text@.take(i as int)),
            decreases n - i,
        {
            let hi = hex_val(text.get_char(i));
            let lo = hex_val(text.get_char(i + 1));
            match (hi, lo) {
                (Some(h), Some(l)) => {
                    digest.push(h * 16 + l);
                    proof {
                        lemma_hex_bytes_snoc(text@, i as int);
                    }
                },
                _ => {
                    return Err("Invalid hex byte");
                },
            }
            i += 2;
        }
        proof {
            assert(text@.take(n as int) =~= text@);
        }
        Ok(HashedPassword { digest })
    }

    /// The digest in lowercase hex.
    pub fn to_hex(&self) -> (r: String)
        ensures
            r@ == spec_hex_text(self@),
            r@.len() == self@.len() * 2,
    {
        let mut chars: Vec<char> = Vec::new();
        let mut i: usize = 0;
        proof {
            assert(self@.take(0) =~= Seq::<u8>::empty());
            lemma_hex_text_len(self@.take(0));
        }
        while i < self.digest.len()
            invariant
                i <= self@.len(),
                chars@ == spec_hex_text(self@.take(i as int)),
                chars@.len() == i * 2,
            decreases self@.len() - i,
        {
            let b = self.digest[i];
            chars.push(crate::text::hex_digit_char((b / 16) as usize));
            chars.push(crate::text::hex_digit_char((b % 16) as usize));
            proof {
                lemma_hex_text_snoc(self@, i as int);
            }
            i += 1;
        }
        proof {
            assert(self@.take(self@.len() as int) =~= self@);
        }
        chars_to_string(&chars)
    }
}

/// A hex digit, in either case.
pub open spec fn is_hex_char(c: char) -> bool {
    ('0' <= c && c <= '9') || ('a' <= c && c <= 'f') || ('A' <= c && c <= 'F')
}

/// The value of a hex digit, in either case.
pub open spec fn spec_hex_val(c: char) -> int {
    if '0' <= c && c <= '9' {
        (c as u32) - 48
    } else if 'a' <= c && c <= 'f' {
        (c as u32) - 87
    } else {
        (c as u32) - 55
    }
}

/// The bytes a string of hex-digit pairs spells.
pub open spec fn spec_hex_bytes(s: Seq<char>) -> Seq<u8>
    decreases s.len(),
{
    if s.len() < 2 {
        Seq::empty()
    } else {
        seq![(spec_hex_val(s[0]) * 16 + spec_hex_val(s[1])) as u8] + spec_hex_bytes(s.skip(2))
    }
}

/// The lowercase hex text of a byte string.
pub open spec fn spec_hex_text(b: Seq<u8>) -> Seq<char>
    decreases b.len(),
{
    if b.len() == 0 {
        Seq::empty()
    } else {
        seq![
            crate::text::spec_hex_digit_char((b[0] / 16) as int),
            crate::text::spec_hex_digit_char((b[0] % 16) as int),
        ] + spec_hex_text(b.drop_first())
    }
}

proof fn lemma_hex_text_len(b: Seq<u8>)
    ensures
        spec_hex_text(b).len() == 2 * b.len(),
    decreases b.len(),
{
    if b.len() > 0 {
        lemma_hex_text_len(b.drop_first());
    }
}

/// Extending the text prefix by one byte appends its two digits.
proof fn lemma_hex_text_snoc(b: Seq<u8>, k: int)
    requires
        0 <= k < b.len(),
    ensures
        spec_hex_text(b.take(k + 1)) == spec_hex_text(b.take(k)) + seq![
            crate::text::spec_hex_digit_char((b[k] / 16) as int),
            crate::text::spec_hex_digit_char((b[k] % 16) as int),
        ],
    decreases k,
{
    if k == 0 {
        assert(b.take(1).drop_first() =~= Seq::<u8>::empty());
        assert(b.take(0) =~= Seq::<u8>::empty());
        assert(spec_hex_text(b.take(1)) =~= spec_hex_text(b.take(0)) + seq![
            crate::text::spec_hex_digit_char((b[0] / 16) as int),
            crate::text::spec_hex_digit_char((b[0] % 16) as int),
        ]);
    } else {
        lemma_hex_text_snoc(b.drop_first(), k - 1);
        assert(b.take(k + 1).drop_first() =~= b.drop_first().take(k));
        assert(b.take(k).drop_first() =~= b.drop_first().take(k - 1));
        assert(spec_hex_text(b.take(k + 1)) =~= spec_hex_text(b.take(k)) + seq![
            crate::text::spec_hex_digit_char((b[k] / 16) as int),
            crate::text::spec_hex_digit_char((b[k] % 16) as int),
        ]);
    }
}

/// Extending the byte prefix by one pair of digits appends their byte.
proof fn lemma_hex_bytes_snoc(s: Seq<char>, k: int)
    requires
        0 <= k,
        k % 2 == 0,
        k + 2 <= s.len(),
    ensures
        spec_hex_bytes(s.take(k + 2)) == spec_hex_bytes(s.take(k)) + seq![
            (spec_hex_val(s[k]) * 16 + spec_hex_val(s[k + 1])) as u8,
        ],
    decreases k,
{
    if k == 0 {
        assert(s.take(2).skip(2) =~= Seq::<char>::empty());
        assert(s.take(0) =~= Seq::<char>::empty());
        assert(spec_hex_bytes(s.take(2)) =~= spec_hex_bytes(s.take(0)) + seq![
            (spec_hex_val(s[0]) * 16 + spec_hex_val(s[1])) as u8,
        ]);
    } else {
        lemma_hex_bytes_snoc(s.skip(2), k - 2);
        assert(s.take(k + 2).skip(2) =~= s.skip(2).take(k));
        assert(s.take(k).skip(2) =~= s.skip(2).take(k - 2));
        assert(spec_hex_bytes(s.take(k + 2)) =~= spec_hex_bytes(s.take(k)) + seq![
            (spec_hex_val(s[k]) * 16 + spec_hex_val(s[k + 1])) as u8,
        ]);
    }
}

/// Reading the hex text of a digest back yields the digest: `to_hex` and
/// `from_str` are inverse.
pub proof fn lemma_hex_round_trip(b: Seq<u8>)
    ensures
        spec_hex_bytes(spec_hex_text(b)) == b,
        spec_hex_text(b).len() == 2 * b.len(),
        forall|i: int| 0 <= i < spec_hex_text(b).len() ==> is_hex_char(
            #[trigger] spec_hex_text(b)[i],
        ),
    decreases b.len(),
{
    lemma_hex_text_len(b);
    if b.len() == 0 {
        assert(spec_hex_bytes(spec_hex_text(b)) =~= b);
    } else {
        lemma_hex_round_trip(b.drop_first());
        let hi = (b[0] / 16) as int;
        let lo = (b[0] % 16) as int;
        assert((((48 + hi) as u8) as char) as u32 == 48 + hi);
        assert((((87 + hi) as u8) as char) as u32 == 87 + hi);
        assert((((48 + lo) as u8) as char) as u32 == 48 + lo);
        assert((((87 + lo) as u8) as char) as u32 == 87 + lo);
        assert(spec_hex_val(crate::text::spec_hex_digit_char(hi)) == hi);
        assert(spec_hex_val(crate::text::spec_hex_digit_char(lo)) == lo);
        assert(spec_hex_text(b).skip(2) =~= spec_hex_text(b.drop_first()));
        assert(spec_hex_bytes(spec_hex_text(b)) =~= b) by {
            assert(spec_hex_bytes(spec_hex_text(b)) == seq![
                (spec_hex_val(spec_hex_text(b)[0]) * 16 + spec_hex_val(
                    spec_hex_text(b)[1],
                )) as u8,
            ] + spec_hex_bytes(spec_hex_text(b.drop_first())));
        }
        assert forall|i: int| 0 <= i < spec_hex_text(b).len() implies is_hex_char(
            #[trigger] spec_hex_text(b)[i],
        ) by {
            if i >= 2 {
                assert(spec_hex_text(b)[i] == spec_hex_text(b.drop_first())[i - 2]);
            }
        }
    }
}

fn hex_val(c: char) -> (r: Option<u8>)
    ensures
        r is Some <==> is_hex_char(c),
        r matches Some(v) ==> v < 16 && v == spec_hex_val(c),
{
    if '0' <= c && c <= '9' {
        Some(((c as u32) - 48) as u8)
    } else if 'a' <= c && c <= 'f' {
        Some(((c as u32) - 87) as u8)
    } else if 'A' <= c && c <= 'F' {
        Some(((c as u32) - 55) as u8)
    } else {
        None
    }
}

/// How one user stands to one other user.
#[derive(Debug)]
pub enum BackendFriendshipState {
    ReqIncoming,
    ReqOutgoing,
    Friends { chat_thread_id: crate::chat::ChatThreadId },
}

impl BackendFriendshipState {
    /// The state as shown to the user itself.
    pub fn to_public(&self) -> (r: PublicFriendState)
        ensures
            r == (match self {
                BackendFriendshipState::ReqOutgoing => PublicFriendState::IsRequestedByMe,
                BackendFriendshipState::ReqIncoming => PublicFriendState::HasRequestedMe,
                BackendFriendshipState::Friends { .. } => PublicFriendState::IsFriend,
            }),
    {
        match self {
            BackendFriendshipState::ReqOutgoing => PublicFriendState::IsRequestedByMe,
            BackendFriendshipState::ReqIncoming => PublicFriendState::HasRequestedMe,
            BackendFriendshipState::Friends { .. } => PublicFriendState::IsFriend,
        }
    }

    pub open spec fn is_friends(self) -> bool {
        self is Friends
    }
}

/// One friendship edge, seen from one side.
#[derive(Debug)]
pub struct BackendFriendshipMe {
    pub state: BackendFriendshipState,
    pub other_id: UserId,
}

/// All friendship edges of one user.
#[derive(Debug)]
pub struct BackendFriendshipsMe {
    edges: Vec<BackendFriendshipMe>,
}

impl View for BackendFriendshipsMe {
    type V = Seq<BackendFriendshipMe>;

    closed spec fn view(&self) -> Seq<BackendFriendshipMe> {
        self.edges@
    }
}

impl BackendFriendshipsMe {
    pub fn new() -> (r: BackendFriendshipsMe)
        ensures
            r@.len() == 0,
    {
        BackendFriendshipsMe { edges: Vec::new() }
    }

    pub fn from(v: Vec<BackendFriendshipMe>) -> (r: BackendFriendshipsMe)
        ensures
            r@ == v@,
    {
        BackendFriendshipsMe { edges: v }
    }

    /// The positions of the edges that are settled friendships, in their
    /// stored order: strictly increasing, so no position repeats.
    pub fn friends(&self) -> (r: Vec<usize>)
        ensures
            forall|k: int| 0 <= k < r@.len() ==> {
                &&& (#[trigger] r@[k]) < self@.len()
                &&& self@[r@[k] as int].state.is_friends()
            },
            forall|j: int| 0 <= j < self@.len() && (#[trigger] self@[j]).state.is_friends()
                ==> r@.contains(j as usize),
            forall|p: int, q: int| 0 <= p < q < r@.len() ==> #[trigger] r@[p] < #[trigger] r@[q],
    {
        let mut r: Vec<usize> = Vec::new();
        let mut i: usize = 0;
        while i < self.edges.len()
            invariant
                i <= self@.len(),
                forall|k: int| 0 <= k < r@.len() ==> {
                    &&& (#[trigger] r@[k]) < i
                    &&& self@[r@[k] as int].state.is_friends()
                },
                forall|j: int| 0 <= j < i && (#[trigger] self@[j]).state.is_friends()
                    ==> r@.contains(j as usize),
                forall|p: int, q: int| 0 <= p < q < r@.len() ==> #[trigger] r@[p]
                    < #[trigger] r@[q],
            decreases self@.len() - i,
        {
            let ghost r0 = r@;
            let is_friend = match &self.edges[i].state {
                BackendFriendshipState::Friends { .. } => true,
                _ => false,
            };
            if is_friend {
                r.push(i);
            }
            proof {
                assert forall|j: int| 0 <= j < i + 1 && (#[trigger] self@[j]).state.is_friends()
                    implies r@.contains(j as usize) by {
                    if j < i {
                        let k = choose|k: int| 0 <= k < r0.len() && r0[k] == j as usize;
                        assert(r@[k] == j as usize);
                    } else {
                        assert(r@.last() == i);
                    }
                }
            }
            i += 1;
        }
        r
    }

    /// The number of edges.
    pub fn len(&self) -> (r: usize)
        ensures
            r == self@.len(),
    {
        self.edges.len()
    }

    /// One edge, by position.
    pub fn get(&self, i: usize) -> (r: &BackendFriendshipMe)
        requires
            i < self@.len(),
        ensures
            *r == self@[i as int],
    {
        &self.edges[i]
    }

    /// The edges, by position; stands in for iteration.
    pub fn iter(&self) -> (r: &Vec<BackendFriendshipMe>)
        ensures
            r@ == self@,
    {
        &self.edges
    }
}

/// How a friend relates to the asking user, as shown to clients.
#[derive(Clone, Copy, Debug, PartialEq, Eq, Structural)]
pub enum PublicFriendState {
    IsFriend,
    IsRequestedByMe,
    HasRequestedMe,
}

/// Another user, as shown to clients.
#[derive(Debug)]
pub struct PublicUserOther {
    pub id: UserId,
    pub username: String,
    pub game_info: UserGameInfo,
    pub playing: bool,
}

/// One friend entry, as shown to its owner.
#[derive(Debug)]
pub struct PublicFriend {
    pub user: PublicUserOther,
    pub friend_state: PublicFriendState,
    pub chat_thread_id: Option<crate::chat::ChatThreadId>,
}

/// The asking user's own account, as shown to itself.
#[derive(Debug)]
pub struct PublicUserMe {
    pub id: UserId,
    pub username: String,
    pub email: Option<String>,
    pub game_info: UserGameInfo,
    pub friendships: Vec<PublicFriend>,
}

/// Two optional identifiers read the same.
pub open spec fn opt_uid_eq(a: Option<UserId>, b: Option<UserId>) -> bool {
    match (a, b) {
        (Some(x), Some(y)) => x@ == y@,
        (None, None) => true,
        _ => false,
    }
}

/// Strict lexicographic order on character sequences.
pub open spec fn spec_lex_less(a: Seq<char>, b: Seq<char>) -> bool
    decreases a.len(),
{
    if b.len() == 0 {
        false
    } else if a.len() == 0 {
        true
    } else if a[0] != b[0] {
        (a[0] as u32) < (b[0] as u32)
    } else {
        spec_lex_less(a.drop_first(), b.drop_first())
    }
}

proof fn lemma_lex_less_unfold(a: Seq<char>, b: Seq<char>, i: int)
    requires
        0 <= i < a.len(),
        i < b.len(),
        forall|j: int| 0 <= j < i ==> a[j] == b[j],
        a[i] != b[i],
        (a[i] as u32) < (b[i] as u32),
    ensures
        spec_lex_less(a, b),
    decreases i,
{
    if i == 0 {
    } else {
        lemma_lex_less_unfold(a.drop_first(), b.drop_first(), i - 1);
    }
}

proof fn lemma_lex_not_less_unfold(a: Seq<char>, b: Seq<char>, i: int)
    requires
        0 <= i < a.len(),
        i < b.len(),
        forall|j: int| 0 <= j < i ==> a[j] == b[j],
        a[i] != b[i],
        (a[i] as u32) > (b[i] as u32),
    ensures
        !spec_lex_less(a, b),
    decreases i,
{
    if i == 0 {
    } else {
        lemma_lex_not_less_unfold(a.drop_first(), b.drop_first(), i - 1);
    }
}

proof fn lemma_lex_prefix(a: Seq<char>, b: Seq<char>, n: int)
    requires
        n == vstd::math::min(a.len() as int, b.len() as int),
        forall|j: int| 0 <= j < n ==> a[j] == b[j],
    ensures
        spec_lex_less(a, b) == (a.len() < b.len()),
    decreases n,
{
    if n == 0 {
        if a.len() == 0 || b.len() == 0 {
        }
    } else {
        lemma_lex_prefix(a.drop_first(), b.drop_first(), n - 1);
    }
}

} // verus!

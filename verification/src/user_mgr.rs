//! The user directory's decisions: password policy, rating changes after a
//! ranked game, and the friendship actions.  The store itself is read and
//! written outside; these functions decide what to write.

use vstd::prelude::*;
use crate::users::{
    BackendFriendshipsMe, BackendFriendshipState, HashedPassword, UserGameInfo, UserId,
    MAX_PASSWORD_LENGTH, MIN_PASSWORD_LENGTH,
};

verus! {

/// Rating points transferred per ranked win.
pub const SR_PER_WIN: i32 = 25;

/// Login form contents.
#[derive(Debug)]
pub struct UserAuth {
    pub username: String,
    pub password: String,
}

/// One account as the core works with it; `playing` holds the session now
/// playing under it, if any.
#[derive(Debug)]
pub struct BackendUserMe {
    pub id: UserId,
    pub username: String,
    pub password: HashedPassword,
    pub email: Option<String>,
    pub game_info: UserGameInfo,
    pub playing: Option<u64>,
    pub friendships: BackendFriendshipsMe,
}

impl BackendUserMe {
    /// A fresh account with a random id and the starting rating.
    pub fn new(username: String, password: String) -> (r: BackendUserMe)
        ensures
            r.id.wf(),
            r.username@ == username@,
            r.password@ == crate::users::keccak256_of(vstd::utf8::encode_utf8(password@)),
            r.email is None,
            r.game_info.skill_rating == 1000,
            r.playing is None,
            r.friendships@.len() == 0,
    {
        BackendUserMe {
            id: UserId::new(),
            username,
            password: HashedPassword::new(password),
            email: None,
            game_info: UserGameInfo::new(),
            playing: None,
            friendships: BackendFriendshipsMe::new(),
        }
    }

    /// The registration password policy: over six and under fifteen
    /// characters, at least one from the special set, none from the
    /// forbidden set.
    pub fn check_password(password: &str) -> (r: bool)
        ensures
            r == (password@.len() > MIN_PASSWORD_LENGTH && password@.len()
                < MAX_PASSWORD_LENGTH && (exists|i: int|
                0 <= i < password@.len() && is_special_char(#[trigger] password@[i])) && (
            forall|j: int| 0 <= j < password@.len() ==> !is_invalid_char(
                #[trigger] password@[j],
            ))),
    {
        let n = password.unicode_len();
        if !(n > MIN_PASSWORD_LENGTH && n < MAX_PASSWORD_LENGTH) {
            return false;
        }
        let mut any_special = false;
        let mut i: usize = 0;
        while i < n
            invariant
                i <= n,
                n == password@.len(),
                any_special == (exists|p: int|
                    0 <= p < i && is_special_char(#[trigger] password@[p])),
                forall|j: int| 0 <= j < i ==> !is_invalid_char(#[trigger] password@[j]),
            decreases n - i,
        {
            let c = password.get_char(i);
            if is_invalid_char_exec(c) {
                return false;
            }
            if is_special_char_exec(c) {
                any_special = true;
            }
            i += 1;
        }
        any_special
    }

    /// Replaces the id, for retrying on a collision at registration.
    pub fn gen_new_id(&mut self)
        ensures
            final(self).id.wf(),
            final(self).username@ == old(self).username@,
            final(self).password@ == old(self).password@,
            final(self).game_info == old(self).game_info,
            final(self).playing == old(self).playing,
    {
        self.id = UserId::new();
    }
}

/// Characters of which a password needs at least one.
pub open spec fn is_special_char(c: char) -> bool {
    "0123456789=!<[>]()-/{}~+%$|#';&+"@.contains(c)
}

/// Characters a password may not hold.
pub open spec fn is_invalid_char(c: char) -> bool {
    c == '#' || c == ':' || c == '\\' || c == '"'
}

fn char_in_str(c: char, lit: &str) -> (r: bool)
    ensures
        r == lit@.contains(c),
{
    let n = lit.unicode_len();
    let mut i: usize = 0;
    while i < n
        invariant
            i <= n,
            n == lit@.len(),
            forall|j: int| 0 <= j < i ==> lit@[j] != c,
        decreases n - i,
    {
        if lit.get_char(i) == c {
            return true;
        }
        i += 1;
    }
    false
}

fn is_special_char_exec(c: char) -> (r: bool)
    ensures
        r == is_special_char(c),
{
    char_in_str(c, "0123456789=!<[>]()-/{}~+%$|#';&+")
}

fn is_invalid_char_exec(c: char) -> (r: bool)
    ensures
        r == is_invalid_char(c),
{
    c == '#' || c == ':' || c == '\\' || c == '"'
}

/// What to write after a ranked game, given the two accounts' current
/// ratings as far as they were found: with both present the winner gains
/// what the loser gives up and the game is recorded; with either missing
/// nothing changes and nothing is recorded.
pub fn rating_updates(winner: Option<i32>, loser: Option<i32>) -> (r: (
    Option<i32>,
    Option<i32>,
    bool,
))
    requires
        winner matches Some(w) ==> w <= i32::MAX - SR_PER_WIN,
        loser matches Some(l) ==> l >= i32::MIN + SR_PER_WIN,
    ensures
        match (winner, loser) {
            (Some(w), Some(l)) => r == (
                Some((w + SR_PER_WIN) as i32),
                Some((l - SR_PER_WIN) as i32),
                true,
            ),
            _ => r == (None::<i32>, None::<i32>, false),
        },
{
    match (winner, loser) {
        (Some(w), Some(l)) => (Some(w + SR_PER_WIN), Some(l - SR_PER_WIN), true),
        _ => (None, None, false),
    }
}

/// A friendship action a logged-in user may take on another user.
#[derive(Clone, Copy, Debug, PartialEq, Eq, Structural)]
pub enum FriendsAction {
    Request,
    Delete,
}

/// What a friendship action turns into at the store.
#[derive(Clone, Copy, Debug, PartialEq, Eq, Structural)]
pub enum FriendsActionDecision {
    /// The other user had already asked: settle the friendship.
    UpgradeToFriends,
    /// Write a fresh request.
    InsertRequest,
    /// Remove whatever edge exists.
    Remove,
    /// Nothing to do; the action is refused.
    Refuse,
}

/// Decides a friendship action from the asking user's edges: asking
/// oneself or an existing friend is refused, answering an incoming request
/// settles it, repeating an outgoing request is refused, anything else
/// writes a fresh request; deletion needs an existing edge.
pub fn decide_friends_action(
    me: &UserId,
    other: &UserId,
    edges: &BackendFriendshipsMe,
    action: FriendsAction,
) -> (r: FriendsActionDecision)
    ensures
        match action {
            FriendsAction::Request => {
                if me@ == other@ || (exists|k: int|
                    0 <= k < edges@.len() && (#[trigger] edges@[k]).state.is_friends()
                        && edges@[k].other_id@ == other@) {
                    r == FriendsActionDecision::Refuse
                } else if exists|k: int|
                    0 <= k < edges@.len() && (#[trigger] edges@[k]).state is ReqIncoming
                        && edges@[k].other_id@ == other@ {
                    r == FriendsActionDecision::UpgradeToFriends
                } else if exists|k: int|
                    0 <= k < edges@.len() && (#[trigger] edges@[k]).state is ReqOutgoing
                        && edges@[k].other_id@ == other@ {
                    r == FriendsActionDecision::Refuse
                } else {
                    r == FriendsActionDecision::InsertRequest
                }
            },
            FriendsAction::Delete => {
                if exists|k: int|
                    0 <= k < edges@.len() && (#[trigger] edges@[k]).other_id@ == other@ {
                    r == FriendsActionDecision::Remove
                } else {
                    r == FriendsActionDecision::Refuse
                }
            },
        },
{
    let n = edges.len();
    let mut has_friend = false;
    let mut has_incoming = false;
    let mut has_outgoing = false;
    let mut has_any = false;
    let mut k: usize = 0;
    while k < n
        invariant
            k <= n,
            n == edges@.len(),
            has_friend == (exists|p: int|
                0 <= p < k && (#[trigger] edges@[p]).state.is_friends() && edges@[p].other_id@
                    == other@),
            has_incoming == (exists|p: int|
                0 <= p < k && (#[trigger] edges@[p]).state is ReqIncoming
                    && edges@[p].other_id@ == other@),
            has_outgoing == (exists|p: int|
                0 <= p < k && (#[trigger] edges@[p]).state is ReqOutgoing
                    && edges@[p].other_id@ == other@),
            has_any == (exists|p: int|
                0 <= p < k && (#[trigger] edges@[p]).other_id@ == other@),
        decreases n - k,
    {
        let edge = edges.get(k);
        let same = crate::text::str_eq(
            edge.other_id.to_string().as_str(),
            other.to_string().as_str(),
        );
        if same {
            has_any = true;
            match &edge.state {
                BackendFriendshipState::Friends { .. } => {
                    has_friend = true;
                },
                BackendFriendshipState::ReqIncoming => {
                    has_incoming = true;
                },
                BackendFriendshipState::ReqOutgoing => {
                    has_outgoing = true;
                },
            }
        }
        k += 1;
    }
    let same_user = crate::text::str_eq(me.to_string().as_str(), other.to_string().as_str());
    match action {
        FriendsAction::Request => {
            if same_user || has_friend {
                FriendsActionDecision::Refuse
            } else if has_incoming {
                FriendsActionDecision::UpgradeToFriends
            } else if has_outgoing {
                FriendsActionDecision::Refuse
            } else {
                FriendsActionDecision::InsertRequest
            }
        },
        FriendsAction::Delete => {
            if has_any {
                FriendsActionDecision::Remove
            } else {
                FriendsActionDecision::Refuse
            }
        },
    }
}

} // verus!

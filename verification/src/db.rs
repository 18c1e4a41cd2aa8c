//! The plain shapes of persisted records and the pure conversions between
//! them and what the core works with.  Reading and writing the store itself
//! happens outside.

use vstd::prelude::*;
use crate::chat::{ChatThreadId, PostedChatMsg, PublicChatMsg};
use crate::users::{
    spec_lex_less, BackendFriendshipMe, BackendFriendshipState, UserId,
};

verus! {

/// The key of a friendship record: the two user ids, larger first, so both
/// directions name the same record.
#[derive(Debug)]
pub struct FriendshipId {
    text: String,
}

impl View for FriendshipId {
    type V = Seq<char>;

    closed spec fn view(&self) -> Seq<char> {
        self.text@
    }
}

impl FriendshipId {
    /// The same id comes out whichever way the two users are passed.
    pub fn new(from_id: &UserId, to_id: &UserId) -> (r: FriendshipId)
        ensures
            r@ == spec_friendship_id(from_id@, to_id@),
    {
        let (first, second) = if !from_id.lex_less(to_id) {
            (from_id, to_id)
        } else {
            (to_id, from_id)
        };
        let mut text = first.to_string();
        text.append(second.to_string().as_str());
        FriendshipId { text }
    }

    pub fn to_string(&self) -> (r: String)
        ensures
            r@ == self@,
    {
        self.text.clone()
    }
}

pub open spec fn spec_friendship_id(a: Seq<char>, b: Seq<char>) -> Seq<char> {
    if !spec_lex_less(a, b) {
        a + b
    } else {
        b + a
    }
}

/// Passing the users in either order names the same friendship record.
pub proof fn lemma_friendship_id_symmetric(a: Seq<char>, b: Seq<char>)
    ensures
        spec_friendship_id(a, b) == spec_friendship_id(b, a),
{
    lemma_lex_less_asymmetric(a, b);
    if !spec_lex_less(a, b) && !spec_lex_less(b, a) {
        lemma_lex_less_total(a, b);
        assert(a + b =~= b + a);
    }
}

/// The order is strict: two sequences cannot each precede the other.
proof fn lemma_lex_less_asymmetric(a: Seq<char>, b: Seq<char>)
    ensures
        spec_lex_less(a, b) ==> !spec_lex_less(b, a),
    decreases a.len(),
{
    if b.len() == 0 || a.len() == 0 {
    } else if a[0] != b[0] {
    } else {
        lemma_lex_less_asymmetric(a.drop_first(), b.drop_first());
    }
}

/// Two sequences that neither precedes the other are equal.
proof fn lemma_lex_less_total(a: Seq<char>, b: Seq<char>)
    requires
        !spec_lex_less(a, b),
        !spec_lex_less(b, a),
    ensures
        a == b,
    decreases a.len(),
{
    if b.len() == 0 {
        assert(a.len() == 0);
        assert(a =~= b);
    } else if a.len() == 0 {
    } else if a[0] != b[0] {
        vstd::utf8::char_u32_cast(a[0], a[0] as u32);
        vstd::utf8::char_u32_cast(b[0], b[0] as u32);
    } else {
        lemma_lex_less_total(a.drop_first(), b.drop_first());
        assert(a =~= seq![a[0]] + a.drop_first());
        assert(b =~= seq![b[0]] + b.drop_first());
    }
}

/// How a friendship record is typed in the store.
#[derive(Debug)]
pub enum DbFriendshipType {
    /// Still a request, pointing from `from_id` to `to_id`.
    FromFromToTo,
    Friends { chat_thread_id: String },
}

/// One stored friendship record.
#[derive(Debug)]
pub struct DbFriendship {
    pub friendship_id: FriendshipId,
    pub date: i64,
    pub friendship_type: DbFriendshipType,
    pub from_id: UserId,
    pub to_id: UserId,
}

impl DbFriendship {
    /// A fresh request from one user to another, stamped with the given
    /// time (seconds).
    pub fn new(from_id: UserId, to_id: UserId, date: i64) -> (r: DbFriendship)
        ensures
            r.friendship_id@ == spec_friendship_id(from_id@, to_id@),
            r.date == date,
            r.friendship_type is FromFromToTo,
            r.from_id@ == from_id@,
            r.to_id@ == to_id@,
    {
        let friendship_id = FriendshipId::new(&from_id, &to_id);
        DbFriendship {
            friendship_id,
            date,
            friendship_type: DbFriendshipType::FromFromToTo,
            from_id,
            to_id,
        }
    }

    /// The record as one side sees it: a request it sent is outgoing, one it
    /// received is incoming, a settled friendship carries the chat thread.
    pub fn to_backend(self, from_id: &UserId) -> (r: BackendFriendshipMe)
        ensures
            self.from_id@ == from_id@ ==> r.other_id@ == self.to_id@,
            self.from_id@ != from_id@ ==> r.other_id@ == self.from_id@,
            match self.friendship_type {
                DbFriendshipType::FromFromToTo => if self.from_id@ == from_id@ {
                    r.state is ReqOutgoing
                } else {
                    r.state is ReqIncoming
                },
                DbFriendshipType::Friends { chat_thread_id } => r.state matches
                    BackendFriendshipState::Friends { chat_thread_id: t } && t@
                    == chat_thread_id@,
            },
    {
        let is_mine = crate::text::str_eq(
            self.from_id.to_string().as_str(),
            from_id.to_string().as_str(),
        );
        let (other_id, state) = if is_mine {
            (
                self.to_id,
                match self.friendship_type {
                    DbFriendshipType::FromFromToTo => BackendFriendshipState::ReqOutgoing,
                    DbFriendshipType::Friends { chat_thread_id } => {
                        BackendFriendshipState::Friends {
                            chat_thread_id: ChatThreadId::parse(chat_thread_id.as_str()),
                        }
                    },
                },
            )
        } else {
            (
                self.from_id,
                match self.friendship_type {
                    DbFriendshipType::FromFromToTo => BackendFriendshipState::ReqIncoming,
                    DbFriendshipType::Friends { chat_thread_id } => {
                        BackendFriendshipState::Friends {
                            chat_thread_id: ChatThreadId::parse(chat_thread_id.as_str()),
                        }
                    },
                },
            )
        };
        BackendFriendshipMe { state, other_id }
    }
}

/// One stored friend request.
#[derive(Debug)]
pub struct DbFriendRequest {
    pub from_id: UserId,
    pub to_id: UserId,
    pub date: i64,
}

impl DbFriendRequest {
    pub fn new(from_id: UserId, to_id: UserId, date: i64) -> (r: DbFriendRequest)
        ensures
            r.from_id@ == from_id@,
            r.to_id@ == to_id@,
            r.date == date,
    {
        DbFriendRequest { from_id, to_id, date }
    }
}

/// One stored chat message.
#[derive(Debug)]
pub struct DbChatMsg {
    pub thread_id: String,
    /// Position of the message in its thread, counting up from zero.
    pub id: i64,
    pub timestamp: i64,
    pub from: Option<UserId>,
    pub content: String,
}

impl DbChatMsg {
    /// Stamps a posted message for the archive.
    pub fn from(
        thread_id: String,
        msg_id: i64,
        from_id: Option<UserId>,
        posted_msg: PostedChatMsg,
        timestamp: i64,
    ) -> (r: DbChatMsg)
        ensures
            r.thread_id@ == thread_id@,
            r.id == msg_id,
            r.timestamp == timestamp,
            r.content@ == posted_msg.content@,
    {
        DbChatMsg {
            thread_id,
            id: msg_id,
            timestamp,
            from: from_id,
            content: posted_msg.content,
        }
    }

    /// The message as clients read it.
    pub fn to_public(self) -> (r: PublicChatMsg)
        ensures
            r.id == self.id,
            r.timestamp == self.timestamp,
            r.content@ == self.content@,
            r.from == self.from,
    {
        PublicChatMsg {
            id: self.id,
            content: self.content,
            timestamp: self.timestamp,
            from: self.from,
        }
    }
}

/// The id of the next message in a thread: one past the newest, or zero in
/// an empty thread.
pub fn next_chat_msg_id(newest: Option<i64>) -> (r: i64)
    requires
        newest matches Some(n) ==> n < i64::MAX,
    ensures
        r == (match newest {
            Some(n) => n + 1,
            None => 0,
        }),
{
    match newest {
        Some(n) => n + 1,
        None => 0,
    }
}

} // verus!

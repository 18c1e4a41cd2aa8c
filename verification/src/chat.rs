//! Chat threads and the public shape of archived messages.

use vstd::prelude::*;
use crate::rng::random_alphanumeric;
use crate::text::is_alphanumeric_char;
use crate::users::UserId;

verus! {

pub const CHAT_THREAD_ID_LEN: usize = 16;

/// A 16-character alphanumeric chat thread key; one constant names the
/// global thread.
#[derive(Debug)]
pub struct ChatThreadId {
    text: String,
}

impl View for ChatThreadId {
    type V = Seq<char>;

    closed spec fn view(&self) -> Seq<char> {
        self.text@
    }
}

impl ChatThreadId {
    /// A fresh random thread key.
    pub fn new() -> (r: ChatThreadId)
        ensures
            r@.len() == CHAT_THREAD_ID_LEN,
            forall|i: int| 0 <= i < r@.len() ==> is_alphanumeric_char(#[trigger] r@[i]),
    {
        ChatThreadId { text: random_alphanumeric(CHAT_THREAD_ID_LEN) }
    }

    /// Wraps existing thread text.
    pub fn parse(text: &str) -> (r: ChatThreadId)
        ensures
            r@ == text@,
    {
        ChatThreadId { text: text.to_owned() }
    }

    /// The reserved key of the global thread.
    pub fn global() -> (r: ChatThreadId)
        ensures
            r@ == "global"@,
    {
        ChatThreadId { text: "global".to_owned() }
    }

    pub fn to_string(&self) -> (r: String)
        ensures
            r@ == self@,
    {
        self.text.clone()
    }
}

impl Clone for ChatThreadId {
    fn clone(&self) -> (r: Self)
        ensures
            r == *self,
    {
        ChatThreadId { text: self.text.clone() }
    }
}

/// One archived chat message, as clients read it.
#[derive(Debug)]
pub struct PublicChatMsg {
    /// Position of the message in its thread, counting up from zero.
    pub id: i64,
    pub content: String,
    pub timestamp: i64,
    pub from: Option<UserId>,
}

/// The body a client posts to a thread.
#[derive(Debug)]
pub struct PostedChatMsg {
    pub content: String,
}

} // verus!

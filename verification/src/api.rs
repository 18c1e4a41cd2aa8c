//! The envelope and error kinds of the account-facing surface, and the
//! session tokens it hands out.

use vstd::prelude::*;
use crate::rng::random_alphanumeric;
use crate::text::is_alphanumeric_char;

verus! {

/// The uniform reply envelope: a message and an optional payload.
pub struct ApiResponse<T> {
    pub message: String,
    pub content: Option<T>,
}

impl ApiResponse<()> {
    pub fn new(message: String) -> (r: Self)
        ensures
            r.message@ == message@,
            r.content is None,
    {
        ApiResponse { message, content: None }
    }
}

impl<T> ApiResponse<T> {
    pub fn with_content(message: String, content: T) -> (r: Self)
        ensures
            r.message@ == message@,
            r.content == Some(content),
    {
        ApiResponse { message, content: Some(content) }
    }
}

/// What the account surface can refuse.
#[derive(Clone, Copy, Debug, PartialEq, Eq, Structural)]
pub enum ApiError {
    UsernameInUse,
    EmailInUse,
    PasswordInsufficient,
    InvalidUsername,
    IncorrectCredentials,
    AlreadyPlaying,
    MissingSessionToken,
    InternalServerError,
}

impl ApiError {
    /// The human-readable half of the error reply.
    pub fn description(self) -> (r: &'static str)
        ensures
            r@ == spec_api_error_text(self),
    {
        match self {
            ApiError::PasswordInsufficient => "insufficient password",
            ApiError::EmailInUse => "email in use",
            ApiError::UsernameInUse => "username in use",
            ApiError::InvalidUsername => "username invalid (too short, long or containing invalid characters)",
            ApiError::AlreadyPlaying => "user is already playing",
            ApiError::MissingSessionToken => "missing header session_token",
            ApiError::IncorrectCredentials => "the credentials are incorrect",
            ApiError::InternalServerError => "internal server error",
        }
    }

    /// The HTTP status code of the error reply.
    pub fn status_code(self) -> (r: u16)
        ensures
            r == spec_api_error_status(self),
    {
        match self {
            ApiError::PasswordInsufficient => 400,
            ApiError::EmailInUse => 400,
            ApiError::UsernameInUse => 400,
            ApiError::InvalidUsername => 400,
            ApiError::AlreadyPlaying => 400,
            ApiError::MissingSessionToken => 401,
            ApiError::IncorrectCredentials => 403,
            ApiError::InternalServerError => 500,
        }
    }
}

pub open spec fn spec_api_error_text(e: ApiError) -> Seq<char> {
    match e {
        ApiError::PasswordInsufficient => "insufficient password"@,
        ApiError::EmailInUse => "email in use"@,
        ApiError::UsernameInUse => "username in use"@,
        ApiError::InvalidUsername => "username invalid (too short, long or containing invalid characters)"@,
        ApiError::AlreadyPlaying => "user is already playing"@,
        ApiError::MissingSessionToken => "missing header session_token"@,
        ApiError::IncorrectCredentials => "the credentials are incorrect"@,
        ApiError::InternalServerError => "internal server error"@,
    }
}

pub open spec fn spec_api_error_status(e: ApiError) -> u16 {
    match e {
        ApiError::MissingSessionToken => 401,
        ApiError::IncorrectCredentials => 403,
        ApiError::InternalServerError => 500,
        _ => 400,
    }
}

/// The opaque token the account surface hands out at login.
#[derive(Debug)]
pub struct SessionToken {
    text: String,
}

impl View for SessionToken {
    type V = Seq<char>;

    closed spec fn view(&self) -> Seq<char> {
        self.text@
    }
}

pub const API_SESSION_TOKEN_LEN: usize = 32;

impl SessionToken {
    /// A fresh random token.
    pub fn new() -> (r: SessionToken)
        ensures
            r@.len() == API_SESSION_TOKEN_LEN,
            forall|i: int| 0 <= i < r@.len() ==> is_alphanumeric_char(#[trigger] r@[i]),
    {
        SessionToken { text: random_alphanumeric(API_SESSION_TOKEN_LEN) }
    }

    /// Wraps token text received from a client.
    pub fn parse(text: &str) -> (r: SessionToken)
        ensures
            r@ == text@,
    {
        SessionToken { text: text.to_owned() }
    }

    pub fn to_string(&self) -> (r: String)
        ensures
            r@ == self@,
    {
        self.text.clone()
    }
}

} // verus!

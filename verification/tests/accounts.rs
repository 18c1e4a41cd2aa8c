use fourinarow::api::{ApiError, ApiResponse, SessionToken};
use fourinarow::chat::ChatThreadId;
use fourinarow::db::{DbFriendRequest, DbFriendship, DbFriendshipType, FriendshipId, next_chat_msg_id};
use fourinarow::user_mgr::{
    decide_friends_action, rating_updates, BackendUserMe, FriendsAction, FriendsActionDecision,
};
use fourinarow::users::{
    BackendFriendshipMe, BackendFriendshipState, BackendFriendshipsMe, HashedPassword,
    PublicFriendState, UserGameInfo, UserId,
};

fn uid(text: &str) -> UserId {
    UserId::from_str(text).expect("valid user id")
}

#[test]
fn user_id_parsing() {
    let u = uid("0123456789ab");
    assert_eq!(u.to_string(), "0123456789ab");
    // upper case is folded
    assert_eq!(uid("0123456789AB").to_string(), "0123456789ab");
    assert!(UserId::from_str("0123456789a").is_err()); // too short
    assert!(UserId::from_str("0123456789abc").is_err()); // too long
    assert!(UserId::from_str("0123456789zz").is_err()); // not hex
    let fresh = UserId::new();
    assert_eq!(fresh.to_string().len(), 12);
}

#[test]
fn user_id_ordering() {
    assert!(uid("000000000001").lex_less(&uid("000000000002")));
    assert!(!uid("000000000002").lex_less(&uid("000000000001")));
    assert!(!uid("000000000001").lex_less(&uid("000000000001")));
}

#[test]
fn hashed_password_uses_keccak256() {
    // the Keccak-256 digest of the empty string is a fixed, well-known value
    let h = HashedPassword::new(String::new());
    assert_eq!(
        h.to_hex(),
        "c5d2460186f7233c927e7db2dcc703c0e500b653ca82273b7bfad8045d85a470"
    );
    let h2 = HashedPassword::new(String::from("secret-word"));
    assert!(h2.matches("secret-word"));
    assert!(!h2.matches("other-word"));
    assert!(!h2.matches(""));
}

#[test]
fn digest_hex_round_trips() {
    let h = HashedPassword::new(String::from("pw"));
    let hex = h.to_hex();
    let back = HashedPassword::from_str(&hex).expect("hex text parses back");
    assert_eq!(back.to_hex(), hex);
    // either case is accepted, odd length and stray characters are not
    assert!(HashedPassword::from_str("A0ff").is_ok());
    assert!(HashedPassword::from_str("a0f").is_err());
    assert!(HashedPassword::from_str("zz").is_err());
}

#[test]
fn password_policy() {
    assert!(BackendUserMe::check_password("abcdef9h"));
    assert!(!BackendUserMe::check_password("abc9"));  // too short
    assert!(!BackendUserMe::check_password("abcdefghij9lmnop"));  // too long
    assert!(!BackendUserMe::check_password("abcdefgh"));  // no special character
    assert!(!BackendUserMe::check_password("abcdef9:"));  // forbidden character
}

#[test]
fn fresh_accounts_start_at_the_same_rating() {
    let user = BackendUserMe::new(String::from("ann"), String::from("pw123456!"));
    assert_eq!(user.game_info.skill_rating, 1000);
    assert_eq!(UserGameInfo::new().skill_rating, 1000);
    assert!(user.playing.is_none());
}

#[test]
fn rating_moves_only_when_both_accounts_exist() {
    assert_eq!(rating_updates(Some(1000), Some(1000)), (Some(1025), Some(975), true));
    assert_eq!(rating_updates(Some(1000), None), (None, None, false));
    assert_eq!(rating_updates(None, Some(1000)), (None, None, false));
    assert_eq!(rating_updates(None, None), (None, None, false));
}

#[test]
fn friendship_id_is_order_independent() {
    let a = uid("aaaaaaaaaaaa");
    let b = uid("bbbbbbbbbbbb");
    assert_eq!(
        FriendshipId::new(&a, &b).to_string(),
        FriendshipId::new(&b, &a).to_string()
    );
    // larger id first
    assert_eq!(
        FriendshipId::new(&a, &b).to_string(),
        "bbbbbbbbbbbbaaaaaaaaaaaa"
    );
}

#[test]
fn friendship_record_views() {
    let me = uid("aaaaaaaaaaaa");
    let other = uid("bbbbbbbbbbbb");
    let record = DbFriendship::new(me.duplicate(), other.duplicate(), 7);
    assert_eq!(record.date, 7);
    let mine = record.to_backend(&me);
    assert!(matches!(mine.state, BackendFriendshipState::ReqOutgoing));
    assert_eq!(mine.other_id.to_string(), "bbbbbbbbbbbb");
    let record2 = DbFriendship::new(me.duplicate(), other.duplicate(), 7);
    let theirs = record2.to_backend(&other);
    assert!(matches!(theirs.state, BackendFriendshipState::ReqIncoming));
    assert_eq!(theirs.other_id.to_string(), "aaaaaaaaaaaa");
    let settled = DbFriendship {
        friendship_type: DbFriendshipType::Friends { chat_thread_id: String::from("t1") },
        ..DbFriendship::new(me.duplicate(), other.duplicate(), 7)
    };
    match settled.to_backend(&me).state {
        BackendFriendshipState::Friends { chat_thread_id } => {
            assert_eq!(chat_thread_id.to_string(), "t1")
        }
        _ => panic!("should be settled"),
    }
}

#[test]
fn friendship_state_to_public() {
    assert_eq!(BackendFriendshipState::ReqOutgoing.to_public(), PublicFriendState::IsRequestedByMe);
    assert_eq!(BackendFriendshipState::ReqIncoming.to_public(), PublicFriendState::HasRequestedMe);
    assert_eq!(
        BackendFriendshipState::Friends { chat_thread_id: ChatThreadId::parse("t") }.to_public(),
        PublicFriendState::IsFriend
    );
}

#[test]
fn friends_actions_are_decided_from_the_edges() {
    let me = uid("aaaaaaaaaaaa");
    let other = uid("bbbbbbbbbbbb");
    let empty = BackendFriendshipsMe::new();
    // no edge yet: a request is written
    assert_eq!(
        decide_friends_action(&me, &other, &empty, FriendsAction::Request),
        FriendsActionDecision::InsertRequest
    );
    // asking oneself is refused
    assert_eq!(
        decide_friends_action(&me, &me, &empty, FriendsAction::Request),
        FriendsActionDecision::Refuse
    );
    // an incoming request is settled
    let incoming = BackendFriendshipsMe::from(vec![BackendFriendshipMe {
        state: BackendFriendshipState::ReqIncoming,
        other_id: other.duplicate(),
    }]);
    assert_eq!(
        decide_friends_action(&me, &other, &incoming, FriendsAction::Request),
        FriendsActionDecision::UpgradeToFriends
    );
    // repeating an outgoing request is refused
    let outgoing = BackendFriendshipsMe::from(vec![BackendFriendshipMe {
        state: BackendFriendshipState::ReqOutgoing,
        other_id: other.duplicate(),
    }]);
    assert_eq!(
        decide_friends_action(&me, &other, &outgoing, FriendsAction::Request),
        FriendsActionDecision::Refuse
    );
    // deleting needs an existing edge
    assert_eq!(
        decide_friends_action(&me, &other, &outgoing, FriendsAction::Delete),
        FriendsActionDecision::Remove
    );
    assert_eq!(
        decide_friends_action(&me, &other, &empty, FriendsAction::Delete),
        FriendsActionDecision::Refuse
    );
}

#[test]
fn friends_listing_finds_the_settled_edges() {
    let edges = BackendFriendshipsMe::from(vec![
        BackendFriendshipMe {
            state: BackendFriendshipState::ReqOutgoing,
            other_id: uid("bbbbbbbbbbbb"),
        },
        BackendFriendshipMe {
            state: BackendFriendshipState::Friends { chat_thread_id: ChatThreadId::parse("t") },
            other_id: uid("cccccccccccc"),
        },
    ]);
    assert_eq!(edges.len(), 2);
    let friends = edges.friends();
    assert_eq!(friends, vec![1]);
    assert_eq!(edges.get(1).other_id.to_string(), "cccccccccccc");
    assert_eq!(edges.iter().len(), 2);
}

#[test]
fn chat_thread_ids() {
    let t = ChatThreadId::new();
    assert_eq!(t.to_string().len(), 16);
    assert_eq!(ChatThreadId::global().to_string(), "global");
    assert_eq!(ChatThreadId::parse("abc").to_string(), "abc");
    assert_eq!(next_chat_msg_id(None), 0);
    assert_eq!(next_chat_msg_id(Some(41)), 42);
}

#[test]
fn friend_requests_keep_their_fields() {
    let r = DbFriendRequest::new(uid("aaaaaaaaaaaa"), uid("bbbbbbbbbbbb"), 99);
    assert_eq!(r.date, 99);
    assert_eq!(r.from_id.to_string(), "aaaaaaaaaaaa");
    assert_eq!(r.to_id.to_string(), "bbbbbbbbbbbb");
}

#[test]
fn api_envelope_and_errors() {
    let plain = ApiResponse::new(String::from("done"));
    assert_eq!(plain.message, "done");
    assert!(plain.content.is_none());
    let full = ApiResponse::with_content(String::from("here"), 7u32);
    assert_eq!(full.content, Some(7));
    assert_eq!(ApiError::IncorrectCredentials.status_code(), 403);
    assert_eq!(ApiError::MissingSessionToken.status_code(), 401);
    assert_eq!(ApiError::InternalServerError.status_code(), 500);
    assert_eq!(ApiError::UsernameInUse.status_code(), 400);
    assert_eq!(ApiError::PasswordInsufficient.description(), "insufficient password");
    let token = SessionToken::new();
    assert_eq!(token.to_string().len(), 32);
    assert_eq!(SessionToken::parse("abc").to_string(), "abc");
}

use fourinarow::codec::{chat_payload_round_trip, decode_chat_payload, encode_chat_payload, parse_encoded_chat_command};
use fourinarow::digits::{parse_digits, usize_to_string};
use fourinarow::game_id::GameId;
use fourinarow::lobby_mgr::LobbyKind;
use fourinarow::protocol::{
    HelloIn, HelloOut, PlayerMessage, ReliabilityError, ReliablePacketIn, ReliablePacketOut,
    ServerMessage, SrvMsgError,
};

#[test]
fn digits_round_trip() {
    assert_eq!(usize_to_string(0), "0");
    assert_eq!(usize_to_string(42), "42");
    assert_eq!(usize_to_string(100500), "100500");
    let chars: Vec<char> = "100500".chars().collect();
    assert_eq!(parse_digits(&chars, 0, chars.len()), Some(100500));
    let bad: Vec<char> = "10x".chars().collect();
    assert_eq!(parse_digits(&bad, 0, bad.len()), None);
    let empty: Vec<char> = Vec::new();
    assert_eq!(parse_digits(&empty, 0, 0), None);
}

#[test]
fn parse_place_chip() {
    assert!(matches!(
        PlayerMessage::parse("PC:3"),
        Some(PlayerMessage::PlaceChip(3))
    ));
    // the codec accepts any digit; the board rejects an unusable column
    assert!(matches!(
        PlayerMessage::parse("PC:7"),
        Some(PlayerMessage::PlaceChip(7))
    ));
    assert!(PlayerMessage::parse("PC:x").is_none());
    assert!(PlayerMessage::parse("PC:33").is_none());
}

#[test]
fn parse_simple_commands() {
    assert!(matches!(
        PlayerMessage::parse("REQ_WW"),
        Some(PlayerMessage::LobbyRequest(LobbyKind::Public))
    ));
    assert!(matches!(
        PlayerMessage::parse("REQ_LOBBY"),
        Some(PlayerMessage::LobbyRequest(LobbyKind::Private))
    ));
    assert!(matches!(PlayerMessage::parse("LEAVE"), Some(PlayerMessage::Leaving)));
    assert!(matches!(PlayerMessage::parse("PING"), Some(PlayerMessage::Ping)));
    assert!(matches!(
        PlayerMessage::parse("PLAY_AGAIN"),
        Some(PlayerMessage::PlayAgainRequest)
    ));
    assert!(matches!(PlayerMessage::parse("LOGOUT"), Some(PlayerMessage::Logout)));
    assert!(matches!(
        PlayerMessage::parse("READY_PONG"),
        Some(PlayerMessage::ReadyForGamePong)
    ));
    assert!(matches!(PlayerMessage::parse("CHAT_READ"), Some(PlayerMessage::ChatRead)));
    // lower case works too
    assert!(matches!(PlayerMessage::parse("ping"), Some(PlayerMessage::Ping)));
    assert!(PlayerMessage::parse("NO_SUCH_COMMAND").is_none());
    assert!(PlayerMessage::parse("").is_none());
}

#[test]
fn parse_join_lobby_uppercases_id() {
    match PlayerMessage::parse("join_lobby:abcd") {
        Some(PlayerMessage::LobbyJoin(gid)) => {
            assert_eq!(gid.to_string(), "ABCD");
        }
        other => panic!("unexpected: {:?}", other),
    }
    assert!(PlayerMessage::parse("JOIN_LOBBY:ABC").is_none());
}

#[test]
fn parse_login_keeps_token_case() {
    match PlayerMessage::parse("LOGIN:AbC123") {
        Some(PlayerMessage::Login(token)) => assert_eq!(token, "AbC123"),
        other => panic!("unexpected: {:?}", other),
    }
}

#[test]
fn parse_battle_req() {
    match PlayerMessage::parse("BATTLE_REQ:0123456789AB") {
        Some(PlayerMessage::BattleReq(uid)) => {
            assert_eq!(uid.to_string(), "0123456789ab");
        }
        other => panic!("unexpected: {:?}", other),
    }
    assert!(PlayerMessage::parse("BATTLE_REQ:short").is_none());
    assert!(PlayerMessage::parse("BATTLE_REQ:0123456789AZ").is_none());
}

#[test]
fn parse_chat_msg_decodes_base64() {
    // "aGk=" is the standard-alphabet encoding of "hi"
    match PlayerMessage::parse("CHAT_MSG:aGk=") {
        Some(PlayerMessage::ChatMessage(text)) => assert_eq!(text, "hi"),
        other => panic!("unexpected: {:?}", other),
    }
    assert!(PlayerMessage::parse("CHAT_MSG:@@@").is_none());
}

#[test]
fn chat_command_round_trips_through_the_parser() {
    match parse_encoded_chat_command("hello there") {
        Some(PlayerMessage::ChatMessage(t)) => assert_eq!(t, "hello there"),
        _ => panic!("the encoded command should parse back to the message"),
    }
    match parse_encoded_chat_command("") {
        Some(PlayerMessage::ChatMessage(t)) => assert_eq!(t, ""),
        _ => panic!("the empty message round-trips too"),
    }
}

#[test]
fn chat_payload_is_base64_of_utf8() {
    assert_eq!(encode_chat_payload("hi"), "aGk=");
    assert_eq!(decode_chat_payload("aGk="), Some(String::from("hi")));
    assert_eq!(decode_chat_payload("@@@"), None);
    // encode then decode is the identity, also beyond ASCII
    assert_eq!(chat_payload_round_trip("hello, world"), Some(String::from("hello, world")));
    assert_eq!(
        chat_payload_round_trip("grüße, Welt"),
        Some(String::from("grüße, Welt"))
    );
}

#[test]
fn serialize_server_messages() {
    assert_eq!(ServerMessage::PlaceChip(3).serialize(), "PC:3");
    assert_eq!(ServerMessage::OpponentLeaving.serialize(), "OPP_LEAVING");
    assert_eq!(ServerMessage::OpponentJoining.serialize(), "OPP_JOINED");
    assert_eq!(ServerMessage::GameStart(true, None).serialize(), "GAME_START:YOU");
    assert_eq!(
        ServerMessage::GameStart(false, Some(String::from("0123456789ab"))).serialize(),
        "GAME_START:OPP:0123456789ab"
    );
    assert_eq!(ServerMessage::GameOver(true).serialize(), "GAME_OVER:YOU");
    assert_eq!(ServerMessage::GameOver(false).serialize(), "GAME_OVER:OPP");
    assert_eq!(ServerMessage::LobbyClosing.serialize(), "LOBBY_CLOSING");
    assert_eq!(ServerMessage::Okay.serialize(), "OKAY");
    assert_eq!(ServerMessage::Pong.serialize(), "PONG");
    assert_eq!(ServerMessage::ReadyForGamePing.serialize(), "READY_PING");
    assert_eq!(ServerMessage::Error(None).serialize(), "ERROR");
    assert_eq!(
        ServerMessage::Error(Some(SrvMsgError::NotYourTurn)).serialize(),
        "ERROR:NotYourTurn"
    );
    assert_eq!(
        ServerMessage::Error(Some(SrvMsgError::InvalidColumn)).serialize(),
        "ERROR:InvalidColumn"
    );
    assert_eq!(
        ServerMessage::CurrentServerState(5, true).serialize(),
        "CURRENT_SERVER_STATE:5:true"
    );
    assert_eq!(
        ServerMessage::ChatMessage(false, String::from("hi"), Some(String::from("ann"))).serialize(),
        "CHAT_MSG:false:aGk=:ann"
    );
    assert_eq!(
        ServerMessage::ChatMessage(true, String::from("hi"), None).serialize(),
        "CHAT_MSG:true:aGk=:"
    );
    assert_eq!(ServerMessage::ChatRead(true).serialize(), "CHAT_READ:true");
    let gid = GameId::parse("ABCD").unwrap();
    assert_eq!(ServerMessage::LobbyResponse(gid).serialize(), "LOBBY_ID:ABCD");
}

#[test]
fn serialize_packets() {
    assert_eq!(ReliablePacketOut::Ack(7).serialize(), "ACK::7");
    assert_eq!(
        ReliablePacketOut::Msg { id: 1, msg: ServerMessage::Okay, retry_count: 0 }.serialize(),
        "MSG::1::OKAY"
    );
    assert_eq!(
        ReliablePacketOut::Error(ReliabilityError::InvalidFormat).serialize(),
        "ERR::INVALID_FORMAT"
    );
    assert_eq!(
        ReliablePacketOut::Error(ReliabilityError::InvalidContent).serialize(),
        "ERR::INVALID_CONTENT"
    );
    assert_eq!(
        ReliablePacketOut::Error(ReliabilityError::UnknownMessage).serialize(),
        "ERR::UNKNOWN_MESSAGE"
    );
}

#[test]
fn parse_reliable_packets() {
    assert!(matches!(
        ReliablePacketIn::parse("ACK::5"),
        Ok(ReliablePacketIn::Ack(5))
    ));
    match ReliablePacketIn::parse("MSG::1::PING") {
        Ok(ReliablePacketIn::Msg(1, PlayerMessage::Ping)) => {}
        other => panic!("unexpected: {:?}", other),
    }
    assert!(matches!(
        ReliablePacketIn::parse("ACK::x"),
        Err(ReliabilityError::InvalidFormat)
    ));
    assert!(matches!(
        ReliablePacketIn::parse("MSG::zz::PING"),
        Err(ReliabilityError::InvalidFormat)
    ));
    assert!(matches!(
        ReliablePacketIn::parse("MSG::1::NO_SUCH"),
        Err(ReliabilityError::InvalidContent)
    ));
    assert!(matches!(
        ReliablePacketIn::parse("HELLO"),
        Err(ReliabilityError::UnknownMessage)
    ));
    assert!(matches!(
        ReliablePacketIn::parse("MSG::1::a::b"),
        Err(ReliabilityError::UnknownMessage)
    ));
}

#[test]
fn hello_round_trip() {
    let h = HelloIn::parse("HELLO::2::NEW").expect("parses");
    assert_eq!(h.protocol_version, 2);
    assert!(h.maybe_session_token.is_none());

    let token = "abcdefghijklmnopqrstuvwxyz012345";
    let req = format!("HELLO::2::REQ:{}", token);
    let h2 = HelloIn::parse(&req).expect("parses");
    assert_eq!(h2.protocol_version, 2);
    assert_eq!(h2.maybe_session_token.as_deref(), Some(token));

    // a short token falls back to a fresh session
    let h3 = HelloIn::parse("HELLO::2::REQ:short").expect("parses");
    assert!(h3.maybe_session_token.is_none());

    assert!(HelloIn::parse("HELLO::x::NEW").is_none());
    assert!(HelloIn::parse("GOODBYE::2::NEW").is_none());

    assert_eq!(
        HelloOut::Accepted(String::from("tok"), true).serialize(),
        "HELLO::NEW::tok"
    );
    assert_eq!(
        HelloOut::Accepted(String::from("tok"), false).serialize(),
        "HELLO::FOUND::tok"
    );
    assert_eq!(HelloOut::OutDated.serialize(), "HELLO::OUTDATED");
}

#[test]
fn game_id_parse_and_print() {
    let gid = GameId::parse("QRST").unwrap();
    assert_eq!(gid.to_string(), "QRST");
    assert!(GameId::parse("QRS").is_none());
    assert!(GameId::parse("QRSTU").is_none());
}

#[test]
fn game_id_generate_avoids_existing_and_stays_in_the_alphabet() {
    let alphabet = "ABCDEFGHJKLMNOPQRSTUXYZ";
    let mut existing = Vec::new();
    for _ in 0..50 {
        let fresh = GameId::generate(&existing);
        assert!(!existing.contains(&fresh));
        for c in fresh.to_string().chars() {
            assert!(alphabet.contains(c), "unexpected id character {}", c);
        }
        existing.push(fresh);
    }
}

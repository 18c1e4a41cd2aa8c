use fourinarow::connection_mgr::{ConnectionManager, ConnectionState};
use fourinarow::lobby::{
    ClientLobbyMessage, ClientLobbyMessageNamed, Lobby, LobbyEffect, LobbyMessage, LobbySide,
    LobbyState, PlayerLeaveReason,
};
use fourinarow::lobby_mgr::{BattleReq, LobbyKind, LobbyManager, RegistryEffect};
use fourinarow::logging::GameOId;
use fourinarow::player::Player;
use fourinarow::protocol::{PlayerMessage, ServerMessage, SrvMsgError};
use fourinarow::session::{
    ClientLobbyState, ClientState, ClientStateMessage, LobbyRequestOutcome, SessionEffect,
};
use fourinarow::users::UserId;

fn uid(text: &str) -> UserId {
    UserId::from_str(text).expect("valid user id")
}

/// Drives a fresh lobby into its playing phase and returns it.
fn playing_lobby() -> Lobby {
    let mut registry = LobbyManager::new();
    let (_, lobby, _) = registry.new_lobby(None, LobbyKind::Public, 0);
    let mut lobby = lobby.expect("host creates the lobby");
    let joined = lobby.handle_lobby_message(
        LobbyMessage::PlayerJoined { maybe_uid: None },
        GameOId(1),
        0,
    );
    assert!(matches!(joined[0], LobbyEffect::ToSession(LobbySide::Host, ServerMessage::ReadyForGamePing)));
    assert!(matches!(joined[1], LobbyEffect::ArmReadyTimeout));
    let paired = lobby.handle_lobby_message(LobbyMessage::ReceivedReadyForGamePong, GameOId(1), 0);
    assert!(matches!(paired[0], LobbyEffect::CancelReadyTimeout));
    assert!(matches!(paired[1], LobbyEffect::ReadyResponseToJoiner));
    assert!(matches!(paired.last(), Some(LobbyEffect::ScheduleGameStart)));
    let started = lobby.handle_lobby_message(LobbyMessage::GameStart, GameOId(1), 0);
    // exactly one side is told it moves first
    let firsts: Vec<bool> = started
        .iter()
        .filter_map(|e| match e {
            LobbyEffect::ToSession(_, ServerMessage::GameStart(first, _)) => Some(*first),
            _ => None,
        })
        .collect();
    assert_eq!(firsts.len(), 2);
    assert_eq!(firsts.iter().filter(|b| **b).count(), 1);
    lobby
}

fn turn_of(lobby: &Lobby) -> Player {
    match &lobby.state {
        LobbyState::TwoPlayers { game_type, .. } => match game_type {
            fourinarow::lobby::GameType::Registered(g, _, _) => g.turn,
            fourinarow::lobby::GameType::Anonymous(g) => g.turn,
        },
        _ => panic!("lobby is not playing"),
    }
}

#[test]
fn public_match_reaches_game_start() {
    let lobby = playing_lobby();
    assert!(matches!(lobby.state, LobbyState::TwoPlayers { .. }));
}

#[test]
fn place_and_win_in_lobby() {
    let mut lobby = playing_lobby();
    let mover = turn_of(&lobby);
    // a move by the side whose turn it is reaches the opponent
    let effects = lobby.handle_client_message(
        ClientLobbyMessageNamed { sender: mover, msg: ClientLobbyMessage::PlaceChip(3) },
        1,
    );
    match &effects[0] {
        LobbyEffect::ToSession(side, ServerMessage::PlaceChip(3)) => {
            let other = if mover == Player::One { LobbySide::Joiner } else { LobbySide::Host };
            assert_eq!(*side, other);
        }
        _ => panic!("the opponent should see the accepted column"),
    }
    // the mover hears its move was accepted
    let mover_side = if mover == Player::One { LobbySide::Host } else { LobbySide::Joiner };
    match &effects[1] {
        LobbyEffect::ToSession(side, ServerMessage::Okay) => assert_eq!(*side, mover_side),
        _ => panic!("the mover should receive the acceptance"),
    }
    assert_eq!(effects.len(), 2);
    // a move by the same side again is rejected, to the mover alone
    let rejected = lobby.handle_client_message(
        ClientLobbyMessageNamed { sender: mover, msg: ClientLobbyMessage::PlaceChip(3) },
        2,
    );
    assert_eq!(rejected.len(), 1);
    assert!(matches!(
        rejected[0],
        LobbyEffect::ToSession(_, ServerMessage::Error(Some(SrvMsgError::NotYourTurn)))
    ));
    // play out a vertical win for the first mover on column 0
    let second = if mover == Player::One { Player::Two } else { Player::One };
    for k in 0..3 {
        let e = lobby.handle_client_message(
            ClientLobbyMessageNamed { sender: second, msg: ClientLobbyMessage::PlaceChip(1 + k) },
            3,
        );
        assert!(matches!(e[0], LobbyEffect::ToSession(_, ServerMessage::PlaceChip(_))));
        let e2 = lobby.handle_client_message(
            ClientLobbyMessageNamed { sender: mover, msg: ClientLobbyMessage::PlaceChip(0) },
            3,
        );
        if k < 2 {
            assert_eq!(e2.len(), 2);
        } else {
            // the fourth chip of the mover in column 0 ends the game
            // (one landed at column 3 in the opening move)
        }
    }
    let e3 = lobby.handle_client_message(
        ClientLobbyMessageNamed { sender: second, msg: ClientLobbyMessage::PlaceChip(5) },
        3,
    );
    assert!(matches!(e3[0], LobbyEffect::ToSession(_, ServerMessage::PlaceChip(5))));
    let winning = lobby.handle_client_message(
        ClientLobbyMessageNamed { sender: mover, msg: ClientLobbyMessage::PlaceChip(0) },
        3,
    );
    assert!(matches!(winning[0], LobbyEffect::ToSession(_, ServerMessage::PlaceChip(0))));
    assert!(matches!(winning[1], LobbyEffect::ToSession(_, ServerMessage::Okay)));
    match &winning[2] {
        LobbyEffect::ToSession(side, ServerMessage::GameOver(true)) => {
            assert_eq!(*side, mover_side)
        }
        _ => panic!("the mover should be told it won"),
    }
    assert!(matches!(winning[3], LobbyEffect::ToSession(_, ServerMessage::GameOver(false))));
    assert!(matches!(winning[4], LobbyEffect::LogGameEnd { .. }));
}

#[test]
fn rematch_requires_both_votes() {
    let mut lobby = playing_lobby();
    let mover = turn_of(&lobby);
    let second = if mover == Player::One { Player::Two } else { Player::One };
    // quick vertical win
    for _ in 0..3 {
        lobby.handle_client_message(
            ClientLobbyMessageNamed { sender: mover, msg: ClientLobbyMessage::PlaceChip(0) },
            0,
        );
        lobby.handle_client_message(
            ClientLobbyMessageNamed { sender: second, msg: ClientLobbyMessage::PlaceChip(1) },
            0,
        );
    }
    // board now: three chips each; a fourth in column 0 wins for `mover`...
    // actually `second` moved last, so it is `mover`'s turn again
    let won = lobby.handle_client_message(
        ClientLobbyMessageNamed { sender: mover, msg: ClientLobbyMessage::PlaceChip(0) },
        0,
    );
    assert!(won.iter().any(|e| matches!(e, LobbyEffect::ToSession(_, ServerMessage::GameOver(true)))));
    // one vote does not start a game
    let first_vote = lobby.handle_client_message(
        ClientLobbyMessageNamed { sender: mover, msg: ClientLobbyMessage::PlayAgainRequest },
        0,
    );
    assert!(first_vote.is_empty());
    // the same side voting again changes nothing
    let again = lobby.handle_client_message(
        ClientLobbyMessageNamed { sender: mover, msg: ClientLobbyMessage::PlayAgainRequest },
        0,
    );
    assert!(again.is_empty());
    // the other side's vote completes the rematch
    let second_vote = lobby.handle_client_message(
        ClientLobbyMessageNamed { sender: second, msg: ClientLobbyMessage::PlayAgainRequest },
        0,
    );
    assert!(matches!(second_vote[0], LobbyEffect::NotifyGameStart));
}

#[test]
fn rematch_before_game_over_is_refused() {
    let mut lobby = playing_lobby();
    let mover = turn_of(&lobby);
    let e = lobby.handle_client_message(
        ClientLobbyMessageNamed { sender: mover, msg: ClientLobbyMessage::PlayAgainRequest },
        0,
    );
    assert!(matches!(
        e[0],
        LobbyEffect::ToSession(_, ServerMessage::Error(Some(SrvMsgError::GameNotOver)))
    ));
}

#[test]
fn leaving_closes_the_lobby() {
    let mut lobby = playing_lobby();
    let e = lobby.handle_client_message(
        ClientLobbyMessageNamed {
            sender: Player::One,
            msg: ClientLobbyMessage::PlayerLeaving { reason: PlayerLeaveReason::Leave },
        },
        0,
    );
    assert!(matches!(e[0], LobbyEffect::CloseLobbyAtRegistry));
    assert!(e.iter().any(|x| matches!(
        x,
        LobbyEffect::ToSession(LobbySide::Joiner, ServerMessage::OpponentLeaving)
    )));
    assert!(matches!(e.last(), Some(LobbyEffect::Stop)));
}

#[test]
fn chat_relays_to_the_other_side_only() {
    let mut lobby = playing_lobby();
    let e = lobby.handle_client_message(
        ClientLobbyMessageNamed {
            sender: Player::Two,
            msg: ClientLobbyMessage::ChatMessage(String::from("gg"), None),
        },
        0,
    );
    assert_eq!(e.len(), 1);
    assert!(matches!(
        &e[0],
        LobbyEffect::ToSession(LobbySide::Host, ServerMessage::ChatMessage(false, m, None)) if m == "gg"
    ));
}

#[test]
fn second_public_request_pairs_with_the_waiting_host() {
    let mut registry = LobbyManager::new();
    let (first, lobby1, fx1) = registry.new_lobby(None, LobbyKind::Public, 0);
    assert!(lobby1.is_some());
    assert!(matches!(fx1[0], RegistryEffect::BroadcastQueueState(true)));
    let host_handle = match first {
        LobbyRequestOutcome::Granted { player, lobby, waiting } => {
            assert_eq!(player, Player::One);
            assert!(!waiting);
            lobby
        }
        other => panic!("unexpected: {:?}", match other {
            LobbyRequestOutcome::Granted { .. } => "granted",
            LobbyRequestOutcome::Refused(_) => "refused",
            LobbyRequestOutcome::Failed => "failed",
        }),
    };
    let (second, lobby2, fx2) = registry.new_lobby(None, LobbyKind::Public, 1);
    assert!(lobby2.is_none());
    match second {
        LobbyRequestOutcome::Granted { player, lobby, waiting } => {
            assert_eq!(player, Player::Two);
            assert!(waiting);
            assert_eq!(lobby, host_handle);
        }
        _ => panic!("the second asker should be paired"),
    }
    assert!(matches!(fx2[0], RegistryEffect::DeliverPlayerJoined { lobby, .. } if lobby == host_handle));
    assert!(matches!(fx2[1], RegistryEffect::BroadcastQueueState(false)));
    // the slot is free again: a third public request opens a new lobby
    let (third, lobby3, _) = registry.new_lobby(None, LobbyKind::Public, 2);
    assert!(lobby3.is_some());
    assert!(matches!(third, LobbyRequestOutcome::Granted { waiting: false, .. }));
}

#[test]
fn join_nonexistent_lobby_is_lobby_not_found() {
    let mut registry = LobbyManager::new();
    let gid = fourinarow::game_id::GameId::parse("QQQQ").unwrap();
    let (outcome, fx) = registry.join_lobby(gid, None, LobbyKind::Private);
    assert!(matches!(
        outcome,
        LobbyRequestOutcome::Refused(Some(SrvMsgError::LobbyNotFound))
    ));
    assert!(fx.is_empty());
}

#[test]
fn private_lobby_can_be_joined_by_id() {
    let mut registry = LobbyManager::new();
    let (outcome, lobby, _) = registry.new_lobby(None, LobbyKind::Private, 0);
    let lobby = lobby.expect("created");
    let handle = match outcome {
        LobbyRequestOutcome::Granted { lobby, .. } => lobby,
        _ => panic!("granted"),
    };
    let (joined, fx) = registry.join_lobby(lobby.game_id, None, LobbyKind::Private);
    assert!(matches!(joined, LobbyRequestOutcome::Granted { player: Player::Two, waiting: true, lobby: l } if l == handle));
    assert!(matches!(fx[0], RegistryEffect::DeliverPlayerJoined { lobby: l, .. } if l == handle));
}

#[test]
fn battle_request_creates_a_private_lobby_for_both() {
    let mut registry = LobbyManager::new();
    let (lobby, fx) = registry.battle_request(
        BattleReq {
            sender_session: 10,
            sender_uid: uid("aaaaaaaaaaaa"),
            receiver_session: 20,
            receiver_uid: uid("bbbbbbbbbbbb"),
        },
        0,
    );
    assert!(matches!(
        fx[0],
        RegistryEffect::SessionBattleReqJoinLobby { session: 10, .. }
    ));
    match &fx[1] {
        RegistryEffect::SessionMessage { session, msg: ServerMessage::BattleReq(from, gid) } => {
            assert_eq!(*session, 20);
            assert_eq!(from.to_string(), "aaaaaaaaaaaa");
            assert_eq!(*gid, lobby.game_id);
        }
        _ => panic!("receiver should be told"),
    }
    // the receiver can join by the advertised id
    let (joined, _) = registry.join_lobby(lobby.game_id, Some(uid("bbbbbbbbbbbb")), LobbyKind::Private);
    assert!(matches!(joined, LobbyRequestOutcome::Granted { .. }));
}

#[test]
fn session_guards_answer_with_errors() {
    let mut session = ClientState::new(String::from("tok"));
    // a move outside a lobby
    let e = session.handle_player_message(PlayerMessage::PlaceChip(1));
    assert!(matches!(
        e[0],
        SessionEffect::ToAdapter(ServerMessage::Error(Some(SrvMsgError::NotInLobby)))
    ));
    // a lobby request while already in one
    session.lobby_state = ClientLobbyState::InLobby { player: Player::One, lobby: 5 };
    let e2 = session.handle_player_message(PlayerMessage::LobbyRequest(LobbyKind::Public));
    assert!(matches!(
        e2[0],
        SessionEffect::ToAdapter(ServerMessage::Error(Some(SrvMsgError::AlreadyInLobby)))
    ));
    // a battle request without a login
    session.lobby_state = ClientLobbyState::Idle;
    let e3 = session.handle_player_message(PlayerMessage::BattleReq(uid("cccccccccccc")));
    assert!(matches!(
        e3[0],
        SessionEffect::ToAdapter(ServerMessage::Error(Some(SrvMsgError::NotLoggedIn)))
    ));
    // an idle session asks the registry
    let e4 = session.handle_player_message(PlayerMessage::LobbyRequest(LobbyKind::Public));
    assert!(matches!(e4[0], SessionEffect::AskNewLobby(LobbyKind::Public, None)));
    // the granted place flips the session into the lobby
    let e5 = session.received_lobby_request_response(LobbyRequestOutcome::Granted {
        player: Player::One,
        lobby: 9,
        waiting: false,
    });
    assert!(matches!(e5[0], SessionEffect::ToAdapter(ServerMessage::Okay)));
    assert!(matches!(
        session.lobby_state,
        ClientLobbyState::InLobby { player: Player::One, lobby: 9 }
    ));
    // a close while in a lobby tells the lobby of the disconnect
    let e6 = session.handle_control_message(ClientStateMessage::Close);
    assert!(matches!(
        e6[0],
        SessionEffect::ToLobby(
            Player::One,
            9,
            ClientLobbyMessage::PlayerLeaving { reason: PlayerLeaveReason::Disconnect },
        )
    ));
    assert!(matches!(e6[1], SessionEffect::Stop));
}

#[test]
fn close_reports_a_logged_in_user() {
    let mut session = ClientState::new(String::from("tok"));
    let granted = fourinarow::session::LoginOutcome::Granted(fourinarow::users::PublicUserMe {
        id: uid("abcdefabcdef"),
        username: String::from("ann"),
        email: None,
        game_info: fourinarow::users::UserGameInfo::new(),
        friendships: Vec::new(),
    });
    let _ = session.received_login_response(granted);
    session.lobby_state = ClientLobbyState::InLobby { player: Player::Two, lobby: 4 };
    let e = session.handle_control_message(ClientStateMessage::Close);
    assert_eq!(e.len(), 3);
    assert!(matches!(
        e[0],
        SessionEffect::ToLobby(
            Player::Two,
            4,
            ClientLobbyMessage::PlayerLeaving { reason: PlayerLeaveReason::Disconnect },
        )
    ));
    match &e[1] {
        SessionEffect::StopPlaying(u) => assert_eq!(u.to_string(), "abcdefabcdef"),
        _ => panic!("the directory should be told the user stopped playing"),
    }
    assert!(matches!(e[2], SessionEffect::Stop));
}

#[test]
fn registry_reconnect_and_sweep() {
    let mut registry = ConnectionManager::new();
    let token = registry.request_adapter_new(1);
    assert_eq!(token.len(), 32);
    // the socket drops at t=0
    registry.disconnect(1, &token, 0);
    assert!(matches!(registry.connections[0].state, ConnectionState::Disconnected(0)));
    // within the grace, the same token re-attaches and nothing is lost
    let found = registry.request_adapter_existing(2, &token);
    assert!(found);
    assert!(matches!(registry.connections[0].state, ConnectionState::Connected(2)));
    // an unknown token is not found; the caller then opens a fresh session
    assert!(!registry.request_adapter_existing(3, "nosuchtoken"));
    // beyond the grace, a dropped entry is reaped
    registry.disconnect(2, &token, 1_000);
    let removed = registry.sweep(40_000);
    assert_eq!(removed.len(), 1);
    assert!(registry.connections.is_empty());
    // the old token is gone for good: the next connection starts anew
    assert!(!registry.request_adapter_existing(4, &token));
}

#[test]
fn global_chat_reaches_everyone_but_the_sender() {
    let mut registry = ConnectionManager::new();
    let t1 = registry.request_adapter_new(1);
    let t2 = registry.request_adapter_new(2);
    let t3 = registry.request_adapter_new(3);
    assert_ne!(t1, t2);
    assert_ne!(t2, t3);
    let recipients = registry.global_chat_recipients(&t2);
    assert_eq!(recipients.len(), 2);
    for k in recipients {
        assert_ne!(registry.connections[k].session_token, t2);
    }
    let (count, waiting) = registry.server_state_broadcast();
    assert_eq!(count, 3);
    assert!(!waiting);
}

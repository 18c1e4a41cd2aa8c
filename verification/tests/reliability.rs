use fourinarow::adapter::{ClientAdapter, ClientConnectionConnectionState};
use fourinarow::protocol::{PlayerMessage, ReliablePacketIn, ReliablePacketOut, ServerMessage};
use fourinarow::reliability::ReliabilityLayer;

fn ack_of(p: &ReliablePacketOut) -> usize {
    match p {
        ReliablePacketOut::Ack(id) => *id,
        other => panic!("expected an ack, got {:?}", other),
    }
}

#[test]
fn in_order_delivery() {
    let mut layer = ReliabilityLayer::new();
    let (emitted, acks) = layer.receive(ReliablePacketIn::Msg(1, PlayerMessage::Ping));
    assert_eq!(emitted.len(), 1);
    assert!(matches!(emitted[0], PlayerMessage::Ping));
    assert_eq!(acks.len(), 1);
    assert_eq!(ack_of(&acks[0]), 1);
    assert_eq!(layer.player_msg_index, 1);
}

#[test]
fn out_of_order_is_buffered_then_drained() {
    let mut layer = ReliabilityLayer::new();
    // id 2 and 3 arrive before id 1
    let (e2, a2) = layer.receive(ReliablePacketIn::Msg(2, PlayerMessage::Ping));
    assert!(e2.is_empty());
    assert_eq!(ack_of(&a2[0]), 0); // re-ack of the last delivered id
    let (e3, a3) = layer.receive(ReliablePacketIn::Msg(3, PlayerMessage::ChatRead));
    assert!(e3.is_empty());
    assert_eq!(ack_of(&a3[0]), 0);
    // id 1 arrives: 1, 2, 3 are delivered in order, each acknowledged
    let (e1, a1) = layer.receive(ReliablePacketIn::Msg(1, PlayerMessage::Leaving));
    assert_eq!(e1.len(), 3);
    assert!(matches!(e1[0], PlayerMessage::Leaving));
    assert!(matches!(e1[1], PlayerMessage::Ping));
    assert!(matches!(e1[2], PlayerMessage::ChatRead));
    let ids: Vec<usize> = a1.iter().map(ack_of).collect();
    assert_eq!(ids, vec![1, 2, 3]);
    assert_eq!(layer.player_msg_index, 3);
}

#[test]
fn repeats_are_acked_but_delivered_once() {
    let mut layer = ReliabilityLayer::new();
    let (e1, _) = layer.receive(ReliablePacketIn::Msg(1, PlayerMessage::Ping));
    assert_eq!(e1.len(), 1);
    // the same id again, any number of times: an ack each time, no delivery
    for _ in 0..3 {
        let (e, a) = layer.receive(ReliablePacketIn::Msg(1, PlayerMessage::Ping));
        assert!(e.is_empty());
        assert_eq!(a.len(), 1);
        assert_eq!(ack_of(&a[0]), 1);
    }
    assert_eq!(layer.player_msg_index, 1);
}

#[test]
fn outbound_ids_count_up_and_acks_clear_the_queue() {
    let mut layer = ReliabilityLayer::new();
    let p1 = layer.send(ServerMessage::Okay, 0);
    let p2 = layer.send(ServerMessage::Pong, 10);
    match (p1, p2) {
        (
            ReliablePacketOut::Msg { id: id1, .. },
            ReliablePacketOut::Msg { id: id2, .. },
        ) => {
            assert_eq!(id1, 1);
            assert_eq!(id2, 2);
        }
        _ => panic!("expected message packets"),
    }
    assert_eq!(layer.server_msg_q.len(), 2);
    let (e, a) = layer.receive(ReliablePacketIn::Ack(1));
    assert!(e.is_empty() && a.is_empty());
    assert_eq!(layer.server_msg_q.len(), 1);
    assert_eq!(layer.server_msg_q[0].id, 2);
    // an unknown ack changes nothing
    let _ = layer.receive(ReliablePacketIn::Ack(9));
    assert_eq!(layer.server_msg_q.len(), 1);
}

#[test]
fn resend_after_timeout() {
    let mut layer = ReliabilityLayer::new();
    let _ = layer.send(ServerMessage::Okay, 0);
    // not yet due
    let (r0, lost0, _) = layer.resend_due(100);
    assert!(!lost0);
    assert!(r0.is_empty());
    // due after the timeout: same id, one more retry
    let (r1, lost1, _) = layer.resend_due(800);
    assert!(!lost1);
    assert_eq!(r1.len(), 1);
    match &r1[0] {
        ReliablePacketOut::Msg { id, retry_count, .. } => {
            assert_eq!(*id, 1);
            assert_eq!(*retry_count, 1);
        }
        other => panic!("unexpected: {:?}", other),
    }
    assert_eq!(layer.server_msg_q[0].retry_count, 1);
    assert_eq!(layer.server_msg_q[0].sent_at, 800);
}

#[test]
fn retry_cap_marks_peer_lost() {
    let mut layer = ReliabilityLayer::new();
    let _ = layer.send(ServerMessage::Okay, 0);
    let mut now = 0u64;
    // sixteen retries are allowed; one more overdue pass gives up
    for _ in 0..17 {
        now += 1000;
        let (_, lost, _) = layer.resend_due(now);
        assert!(!lost);
    }
    now += 1000;
    let (r, lost, _) = layer.resend_due(now);
    assert!(lost);
    assert!(r.is_empty());
}

#[test]
fn adapter_handles_wire_text() {
    let mut adapter = ClientAdapter::new(1);
    let (to_session, to_socket) = adapter.receive_text("MSG::1::PING");
    assert_eq!(to_session.len(), 1);
    assert!(matches!(to_session[0], PlayerMessage::Ping));
    assert_eq!(to_socket, vec![String::from("ACK::1")]);
    // the identical frame again: at most one emission, an ack each time
    let (again, socket_again) = adapter.receive_text("MSG::1::PING");
    assert!(again.is_empty());
    assert_eq!(socket_again, vec![String::from("ACK::1")]);
    // garbage is answered with a diagnostic frame
    let (none, err) = adapter.receive_text("WHAT");
    assert!(none.is_empty());
    assert_eq!(err, vec![String::from("ERR::UNKNOWN_MESSAGE")]);
}

#[test]
fn adapter_send_and_legacy_modes() {
    let mut adapter = ClientAdapter::new(1);
    let frame = adapter.send_server_message(ServerMessage::Okay, 0);
    assert_eq!(frame, Some(String::from("MSG::1::OKAY")));

    let mut legacy = ClientAdapter::legacy(2);
    let bare = legacy.send_server_message(ServerMessage::Okay, 0);
    assert_eq!(bare, Some(String::from("OKAY")));
    let (to_session, to_socket) = legacy.receive_text("PING");
    assert_eq!(to_session.len(), 1);
    assert!(to_socket.is_empty());
}

#[test]
fn reconnect_preserves_queues_and_counters() {
    let mut adapter = ClientAdapter::new(1);
    let _ = adapter.receive_text("MSG::1::PING");
    // the socket drops; a message is queued while nothing can be written
    adapter.disconnect();
    assert_eq!(adapter.connection, ClientConnectionConnectionState::Disconnected);
    let nothing = adapter.send_server_message(ServerMessage::Okay, 0);
    assert!(nothing.is_none());
    assert_eq!(adapter.reliability.server_msg_q.len(), 1);
    // while disconnected, acks are not written either
    let (e, frames) = adapter.receive_text("MSG::1::PING");
    assert!(e.is_empty());
    assert!(frames.is_empty());
    // a new socket takes over: counters and queues are exactly as left
    adapter.connect(7);
    assert_eq!(adapter.connection, ClientConnectionConnectionState::Connected(7));
    assert_eq!(adapter.reliability.player_msg_index, 1);
    assert_eq!(adapter.reliability.server_msg_index, 1);
    assert_eq!(adapter.reliability.server_msg_q.len(), 1);
    // the queued message reaches the new socket on the next timer tick
    let frames = adapter.resend_tick(800);
    assert_eq!(frames.0, vec![String::from("MSG::1::OKAY")]);
    // and later frames continue the same numbering with no duplicates
    let (e2, acks) = adapter.receive_text("MSG::2::LEAVE");
    assert_eq!(e2.len(), 1);
    assert_eq!(acks, vec![String::from("ACK::2")]);
}

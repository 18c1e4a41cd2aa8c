//! The adapter between one session and its socket: it runs the reliability
//! layer for reliable clients, bypasses it for legacy clients, and survives
//! socket loss with its queues intact.

use vstd::prelude::*;
use crate::codec::{
    ack_frame, digits_ok, msg_frame, msg_frame_at, parse_player_ok, player_parseable,
    spec_packet_out, spec_server_msg,
};
use crate::digits::digits_val;
use crate::protocol::{PlayerMessage, ReliabilityError, ReliablePacketIn, ReliablePacketOut, ServerMessage};
use crate::reliability::{is_due, ReliabilityLayer, QUEUE_RESEND_TIMEOUT_MS};

verus! {

/// Whether and how a socket is attached.
#[derive(Clone, Copy, Debug, PartialEq, Eq, Structural)]
pub enum ClientConnectionConnectionState {
    /// A reliable client's socket, by its opaque id.
    Connected(u64),
    /// No socket; writes are queued only.
    Disconnected,
    /// A legacy client's socket: the reliability layer is bypassed.
    ConnectedLegacy(u64),
}

/// One session's adapter.
pub struct ClientAdapter {
    pub connection: ClientConnectionConnectionState,
    pub reliability: ReliabilityLayer,
    /// Set once the peer is considered lost; the adapter is then dead.
    pub closed: bool,
}

/// The adapter's reliability layer holds exactly what it held before.
pub open spec fn reliability_untouched(pre: ClientAdapter, post: ClientAdapter) -> bool {
    &&& post.reliability.player_msg_index == pre.reliability.player_msg_index
    &&& post.reliability.player_msg_q@ == pre.reliability.player_msg_q@
    &&& post.reliability.server_msg_index == pre.reliability.server_msg_index
    &&& post.reliability.server_msg_q@ == pre.reliability.server_msg_q@
    &&& post.reliability.delivered@ == pre.reliability.delivered@
}

impl ClientAdapter {
    pub open spec fn wf(self) -> bool {
        self.reliability.wf()
    }

    /// A fresh adapter for a reliable client.
    pub fn new(socket: u64) -> (r: ClientAdapter)
        ensures
            r.wf(),
            r.connection == ClientConnectionConnectionState::Connected(socket),
            !r.closed,
            r.reliability.player_msg_index == 0,
            r.reliability.server_msg_index == 0,
            r.reliability.player_msg_q@.len() == 0,
            r.reliability.server_msg_q@.len() == 0,
            r.reliability.delivered@.len() == 0,
    {
        ClientAdapter {
            connection: ClientConnectionConnectionState::Connected(socket),
            reliability: ReliabilityLayer::new(),
            closed: false,
        }
    }

    /// A fresh adapter for a legacy client.
    pub fn legacy(socket: u64) -> (r: ClientAdapter)
        ensures
            r.wf(),
            r.connection == ClientConnectionConnectionState::ConnectedLegacy(socket),
            !r.closed,
            r.reliability.delivered@.len() == 0,
    {
        ClientAdapter {
            connection: ClientConnectionConnectionState::ConnectedLegacy(socket),
            reliability: ReliabilityLayer::new(),
            closed: false,
        }
    }

    /// A new socket takes over.  Nothing else changes: the queues, counters
    /// and delivery history survive the reconnect untouched.
    pub fn connect(&mut self, socket: u64)
        ensures
            final(self).connection == ClientConnectionConnectionState::Connected(socket),
            final(self).reliability == old(self).reliability,
            final(self).closed == old(self).closed,
    {
        self.connection = ClientConnectionConnectionState::Connected(socket);
    }

    /// The socket fell away; the adapter lives on with its queues.
    pub fn disconnect(&mut self)
        ensures
            final(self).connection == ClientConnectionConnectionState::Disconnected,
            final(self).reliability == old(self).reliability,
            final(self).closed == old(self).closed,
    {
        self.connection = ClientConnectionConnectionState::Disconnected;
    }

    /// The adapter is torn down for good.
    pub fn close(&mut self)
        ensures
            final(self).closed,
            final(self).reliability == old(self).reliability,
            final(self).connection == old(self).connection,
    {
        self.closed = true;
    }

    /// Handles one text frame from the socket.  Returns the logical
    /// messages for the session — in order, each logical id at most once
    /// over the adapter's life — and the frames to write back, which only
    /// flow while a reliable socket is attached.
    pub fn receive_text(&mut self, text: &str) -> (r: (Vec<PlayerMessage>, Vec<String>))
        requires
            old(self).wf(),
            old(self).reliability.player_msg_index + old(self).reliability.player_msg_q@.len()
                + 1 < usize::MAX,
        ensures
            final(self).wf(),
            final(self).connection == old(self).connection,
            final(self).closed == old(self).closed,
            final(self).reliability.server_msg_index == old(self).reliability.server_msg_index,
            final(self).reliability.delivered@ == old(self).reliability.delivered@ + Seq::new(
                (final(self).reliability.player_msg_index - old(self).reliability.player_msg_index) as nat,
                |k: int| old(self).reliability.player_msg_index + k + 1,
            ),
            match old(self).connection {
                ClientConnectionConnectionState::ConnectedLegacy(_) => {
                    &&& final(self).reliability == old(self).reliability
                    &&& r.1@.len() == 0
                    &&& if player_parseable(text@) {
                        r.0@.len() == 1 && parse_player_ok(text@, r.0@[0])
                    } else {
                        r.0@.len() == 0
                    }
                },
                _ => {
                    let connected = old(self).connection is Connected;
                    &&& (msg_frame(text@) ==> {
                        let i = choose|i: int| msg_frame_at(text@, i);
                        &&& (digits_ok(text@.subrange(5, i)) && player_parseable(
                            text@.skip(i + 2),
                        ) ==> {
                            let id = digits_val(text@.subrange(5, i));
                            &&& (id == old(self).reliability.player_msg_index + 1 ==> {
                                &&& r.0@.len() >= 1
                                &&& parse_player_ok(text@.skip(i + 2), r.0@[0])
                                &&& final(self).reliability.player_msg_index == old(self).reliability.player_msg_index + r.0@.len()
                            })
                            &&& (id <= old(self).reliability.player_msg_index ==> {
                                // a repeat is never delivered again, but is
                                // acknowledged once more
                                &&& r.0@.len() == 0
                                &&& final(self).reliability.player_msg_q@ == old(
                                    self,
                                ).reliability.player_msg_q@
                                &&& final(self).reliability.server_msg_q@ == old(
                                    self,
                                ).reliability.server_msg_q@
                                &&& (connected ==> r.1@.len() == 1 && r.1@[0]@
                                    == spec_packet_out(ReliablePacketOut::Ack(id as usize)))
                            })
                            &&& (id > old(self).reliability.player_msg_index + 1 ==> {
                                &&& r.0@.len() == 0
                                &&& (connected ==> r.1@.len() == 1 && r.1@[0]@
                                    == spec_packet_out(
                                    ReliablePacketOut::Ack(
                                        old(self).reliability.player_msg_index,
                                    ),
                                ))
                            })
                        })
                    })
                    &&& (!connected ==> r.1@.len() == 0)
                    &&& (ack_frame(text@) ==> r.0@.len() == 0 && final(self).reliability.player_msg_index == old(self).reliability.player_msg_index)
                    // a frame that parses to an error is discarded: nothing
                    // reaches the session, the reliability state is
                    // unchanged, and the diagnostic is the only reply
                    &&& (!(msg_frame(text@) || ack_frame(text@)) ==> {
                        &&& r.0@.len() == 0
                        &&& reliability_untouched(*old(self), *final(self))
                        &&& (connected ==> r.1@.len() == 1 && r.1@[0]@ == spec_packet_out(
                            ReliablePacketOut::Error(ReliabilityError::UnknownMessage),
                        ))
                    })
                    &&& (ack_frame(text@) && !digits_ok(text@.skip(5)) ==> {
                        &&& reliability_untouched(*old(self), *final(self))
                        &&& (connected ==> r.1@.len() == 1 && r.1@[0]@ == spec_packet_out(
                            ReliablePacketOut::Error(ReliabilityError::InvalidFormat),
                        ))
                    })
                    &&& (msg_frame(text@) ==> {
                        let i = choose|i: int| msg_frame_at(text@, i);
                        &&& (!digits_ok(text@.subrange(5, i)) ==> {
                            &&& r.0@.len() == 0
                            &&& reliability_untouched(*old(self), *final(self))
                            &&& (connected ==> r.1@.len() == 1 && r.1@[0]@ == spec_packet_out(
                                ReliablePacketOut::Error(ReliabilityError::InvalidFormat),
                            ))
                        })
                        &&& (digits_ok(text@.subrange(5, i)) && !player_parseable(
                            text@.skip(i + 2),
                        ) ==> {
                            &&& r.0@.len() == 0
                            &&& reliability_untouched(*old(self), *final(self))
                            &&& (connected ==> r.1@.len() == 1 && r.1@[0]@ == spec_packet_out(
                                ReliablePacketOut::Error(ReliabilityError::InvalidContent),
                            ))
                        })
                    })
                },
            },
    {
        match self.connection {
            ClientConnectionConnectionState::ConnectedLegacy(_) => {
                let mut to_session: Vec<PlayerMessage> = Vec::new();
                match PlayerMessage::parse(text) {
                    Some(m) => {
                        to_session.push(m);
                    },
                    None => {},
                }
                proof {
                    assert(self.reliability.delivered@ =~= old(self).reliability.delivered@
                        + Seq::new(0, |k: int| old(self).reliability.player_msg_index + k + 1));
                }
                (to_session, Vec::new())
            },
            _ => {
                let connected = match self.connection {
                    ClientConnectionConnectionState::Connected(_) => true,
                    _ => false,
                };
                match ReliablePacketIn::parse(text) {
                    Ok(frame) => {
                        let (emitted, outgoing) = self.reliability.receive(frame);
                        let frames = serialize_packets_if(outgoing, connected);
                        (emitted, frames)
                    },
                    Err(e) => {
                        let mut frames: Vec<String> = Vec::new();
                        if connected {
                            frames.push(ReliablePacketOut::Error(e).serialize());
                        }
                        proof {
                            assert(self.reliability.delivered@ =~= old(self).reliability.delivered@ + Seq::new(
                                0,
                                |k: int| old(self).reliability.player_msg_index + k + 1,
                            ));
                        }
                        (Vec::new(), frames)
                    },
                }
            },
        }
    }

    /// Queues one server message under the next outbound id and returns the
    /// frame to write, when a socket is attached.  A legacy client receives
    /// the bare message text; ids never decrease and are never reused.
    pub fn send_server_message(&mut self, msg: ServerMessage, now_ms: u64) -> (r: Option<String>)
        requires
            old(self).wf(),
            old(self).reliability.server_msg_index < usize::MAX,
        ensures
            final(self).wf(),
            final(self).connection == old(self).connection,
            final(self).closed == old(self).closed,
            final(self).reliability.player_msg_index == old(self).reliability.player_msg_index,
            final(self).reliability.delivered@ == old(self).reliability.delivered@,
            final(self).reliability.server_msg_index == old(self).reliability.server_msg_index
                + 1,
            match old(self).connection {
                ClientConnectionConnectionState::Connected(_) => r matches Some(f) && f@
                    == spec_packet_out(
                    (ReliablePacketOut::Msg {
                        id: (old(self).reliability.server_msg_index + 1) as usize,
                        msg,
                        retry_count: 0,
                    }),
                ),
                ClientConnectionConnectionState::ConnectedLegacy(_) => (r matches Some(f) && f@
                    == spec_server_msg(msg)) && final(self).reliability.server_msg_q@ == old(self).reliability.server_msg_q@,
                ClientConnectionConnectionState::Disconnected => r is None,
            },
            old(self).connection is ConnectedLegacy || {
                &&& final(self).reliability.server_msg_q@.len() == old(self).reliability.server_msg_q@.len() + 1
                &&& final(self).reliability.server_msg_q@.last().id == old(self).reliability.server_msg_index + 1
                &&& spec_server_msg(final(self).reliability.server_msg_q@.last().msg)
                    == spec_server_msg(msg)
            },
    {
        match self.connection {
            ClientConnectionConnectionState::ConnectedLegacy(_) => {
                let frame = msg.serialize();
                self.reliability.server_msg_index = self.reliability.server_msg_index + 1;
                Some(frame)
            },
            ClientConnectionConnectionState::Connected(_) => {
                let pkt = self.reliability.send(msg, now_ms);
                Some(pkt.serialize())
            },
            ClientConnectionConnectionState::Disconnected => {
                let _ = self.reliability.send(msg, now_ms);
                None
            },
        }
    }

    /// The retransmission timer fired.  With a reliable socket attached,
    /// every overdue queued message is re-sent — same id, same wire text,
    /// one more retry — unless one has exhausted its retries, in which case
    /// the adapter closes instead.  Without a socket the overdue entries
    /// are merely re-stamped.
    pub fn resend_tick(&mut self, now_ms: u64) -> (r: (Vec<String>, Ghost<Seq<int>>))
        requires
            old(self).wf(),
        ensures
            final(self).wf(),
            final(self).connection == old(self).connection,
            final(self).reliability.player_msg_index == old(self).reliability.player_msg_index,
            final(self).reliability.delivered@ == old(self).reliability.delivered@,
            final(self).reliability.server_msg_index == old(self).reliability.server_msg_index,
            match old(self).connection {
                ClientConnectionConnectionState::Connected(_) => {
                    let lost = exists|k: int|
                        0 <= k < old(self).reliability.server_msg_q@.len() && is_due(
                            #[trigger] old(self).reliability.server_msg_q@[k],
                            now_ms,
                        ) && old(self).reliability.server_msg_q@[k].retry_count
                            > crate::reliability::RPKT_RETRY_LIMIT;
                    &&& final(self).closed == (old(self).closed || lost)
                    &&& (lost ==> r.0@.len() == 0)
                    &&& (!lost ==> {
                        let srcs = r.1@;
                        let q0 = old(self).reliability.server_msg_q@;
                        &&& srcs.len() == r.0@.len()
                        &&& forall|p: int| 0 <= p < srcs.len() ==> 0 <= #[trigger] srcs[p]
                            < q0.len()
                        &&& forall|p: int| 0 <= p < srcs.len() ==> is_due(
                            q0[#[trigger] srcs[p]],
                            now_ms,
                        )
                        &&& forall|p: int| 0 <= p < srcs.len() ==> (#[trigger] r.0@[p])@
                            == spec_packet_out(
                            (ReliablePacketOut::Msg {
                                id: q0[srcs[p]].id,
                                msg: q0[srcs[p]].msg,
                                retry_count: (q0[srcs[p]].retry_count + 1) as usize,
                            }),
                        )
                        &&& forall|j: int| 0 <= j < q0.len() && is_due(#[trigger] q0[j], now_ms)
                            ==> srcs.contains(j)
                    })
                },
                _ => final(self).closed == old(self).closed && r.0@.len() == 0
                    && final(self).reliability.server_msg_q@.len() == old(
                    self,
                ).reliability.server_msg_q@.len(),
            },
    {
        match self.connection {
            ClientConnectionConnectionState::Connected(_) => {
                let (packets, lost, srcs) = self.reliability.resend_due(now_ms);
                if lost {
                    self.closed = true;
                    return (Vec::new(), Ghost(Seq::empty()));
                }
                let ghost q0 = old(self).reliability.server_msg_q@;
                let ghost srcs0 = srcs@;
                let ghost packets0 = packets@;
                let total = packets.len();
                let mut packets = packets;
                let mut frames: Vec<String> = Vec::new();
                let mut idx: usize = 0;
                proof {
                    assert(packets@ =~= packets0.skip(0));
                }
                while idx < total
                    invariant
                        idx <= total,
                        packets0.len() == total,
                        packets@ == packets0.skip(idx as int),
                        frames@.len() == idx,
                        crate::reliability::resend_matches(packets0, srcs0, q0, now_ms),
                        forall|i: int| 0 <= i < idx ==> (#[trigger] frames@[i])@
                            == spec_packet_out(packets0[i]),
                    decreases total - idx,
                {
                    let pkt = packets.remove(0);
                    proof {
                        assert(pkt == packets0[idx as int]);
                        assert(packets@ =~= packets0.skip(idx + 1));
                    }
                    frames.push(pkt.serialize());
                    idx += 1;
                }
                proof {
                    assert forall|p: int| 0 <= p < srcs0.len() implies (#[trigger] frames@[p])@
                        == spec_packet_out(
                        (ReliablePacketOut::Msg {
                            id: q0[srcs0[p]].id,
                            msg: q0[srcs0[p]].msg,
                            retry_count: (q0[srcs0[p]].retry_count + 1) as usize,
                        }),
                    ) by {
                        assert(frames@[p]@ == spec_packet_out(packets0[p]));
                        assert(packets0[p] matches ReliablePacketOut::Msg {
                            id,
                            msg,
                            retry_count,
                        } && id == q0[srcs0[p]].id && retry_count == q0[srcs0[p]].retry_count
                            + 1 && spec_server_msg(msg) == spec_server_msg(q0[srcs0[p]].msg));
                    }
                }
                (frames, srcs)
            },
            _ => {
                self.reliability.refresh_due(now_ms);
                (Vec::new(), Ghost(Seq::empty()))
            },
        }
    }
}

/// Serializes every packet when the socket is attached; drops them all
/// otherwise.
fn serialize_packets_if(packets: Vec<ReliablePacketOut>, connected: bool) -> (r: Vec<String>)
    ensures
        !connected ==> r@.len() == 0,
        connected ==> {
            &&& r@.len() == packets@.len()
            &&& forall|i: int| 0 <= i < r@.len() ==> (#[trigger] r@[i])@ == spec_packet_out(
                packets@[i],
            )
        },
{
    let mut r: Vec<String> = Vec::new();
    if !connected {
        return r;
    }
    let ghost packets0 = packets@;
    let total = packets.len();
    let mut packets = packets;
    let mut idx: usize = 0;
    while idx < total
        invariant
            idx <= total,
            packets0.len() == total,
            packets@ == packets0.skip(idx as int),
            r@.len() == idx,
            forall|i: int| 0 <= i < idx ==> (#[trigger] r@[i])@ == spec_packet_out(packets0[i]),
        decreases total - idx,
    {
        let pkt = packets.remove(0);
        proof {
            assert(pkt == packets0[idx as int]);
            assert(packets@ =~= packets0.skip(idx + 1));
        }
        r.push(pkt.serialize());
        idx += 1;
    }
    r
}

} // verus!

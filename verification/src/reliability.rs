//! The reliability layer between the session and the socket: it numbers the
//! outbound stream, acknowledges and orders the inbound stream, buffers what
//! arrived early, and retransmits what was never acknowledged.

use vstd::prelude::*;
use crate::protocol::{PlayerMessage, ReliablePacketIn, ReliablePacketOut, ServerMessage};

verus! {

/// How often the outbound queue is checked, in milliseconds.
pub const QUEUE_CHECK_INTERVAL_MS: u64 = 250;

/// How old an unacknowledged message must be before it is resent.
pub const QUEUE_RESEND_TIMEOUT_MS: u64 = 700;

/// How often a message may be resent; one more overdue pass and the peer is
/// considered lost.
pub const RPKT_RETRY_LIMIT: usize = 16;

/// The lowest protocol version the server accepts.
pub const MIN_VERSION: usize = 2;

/// One outbound message awaiting acknowledgement.
pub struct QueuedMessage {
    /// When the message was last written, in milliseconds.
    pub sent_at: u64,
    pub id: usize,
    pub msg: ServerMessage,
    pub retry_count: usize,
}

/// One inbound message that arrived ahead of its turn.
pub struct PendingMessage {
    pub id: usize,
    pub msg: PlayerMessage,
}

/// Sequence numbers and queues of one direction pair.
pub struct ReliabilityLayer {
    /// Last inbound id handed to the session.
    pub player_msg_index: usize,
    /// Out-of-order inbound buffer.
    pub player_msg_q: Vec<PendingMessage>,
    /// Last outbound id assigned.
    pub server_msg_index: usize,
    /// Outbound messages not yet acknowledged.
    pub server_msg_q: Vec<QueuedMessage>,
    /// The ids handed to the session, in the order they were handed over.
    pub delivered: Ghost<Seq<int>>,
}

impl ReliabilityLayer {
    /// The session has seen exactly the ids `1 ..= player_msg_index`, in
    /// order, and nothing waits under an id that was already assigned out.
    pub open spec fn wf(self) -> bool {
        &&& self.delivered@ == Seq::new(self.player_msg_index as nat, |k: int| k + 1)
        &&& forall|k: int| 0 <= k < self.server_msg_q@.len()
            ==> (#[trigger] self.server_msg_q@[k]).id <= self.server_msg_index
    }

    pub fn new() -> (r: ReliabilityLayer)
        ensures
            r.wf(),
            r.player_msg_index == 0,
            r.server_msg_index == 0,
            r.player_msg_q@.len() == 0,
            r.server_msg_q@.len() == 0,
            r.delivered@.len() == 0,
    {
        let r = ReliabilityLayer {
            player_msg_index: 0,
            player_msg_q: Vec::new(),
            server_msg_index: 0,
            server_msg_q: Vec::new(),
            delivered: Ghost(Seq::empty()),
        };
        proof {
            assert(r.delivered@ =~= Seq::new(0, |k: int| k + 1));
        }
        r
    }

    /// Handles one parsed inbound frame.  Returns the messages for the
    /// session — in id order, each id exactly once over the adapter's whole
    /// life — and the frames to send back.
    ///
    /// An `ACK` clears the first matching outbound entry.  A `MSG` with the
    /// next expected id is delivered together with every directly following
    /// buffered message, each one acknowledged; an early `MSG` is buffered
    /// and the last delivered id is re-acknowledged; a repeated `MSG` is
    /// acknowledged once more but never delivered again.
    #[verifier::loop_isolation(false)]
    pub fn receive(&mut self, frame: ReliablePacketIn) -> (r: (
        Vec<PlayerMessage>,
        Vec<ReliablePacketOut>,
    ))
        requires
            old(self).wf(),
            old(self).player_msg_index + old(self).player_msg_q@.len() + 1 < usize::MAX,
        ensures
            final(self).wf(),
            final(self).server_msg_index == old(self).server_msg_index,
            final(self).delivered@ == old(self).delivered@ + Seq::new(
                (final(self).player_msg_index - old(self).player_msg_index) as nat,
                |k: int| old(self).player_msg_index + k + 1,
            ),
            match frame {
                ReliablePacketIn::Ack(id) => {
                    &&& r.0@.len() == 0
                    &&& r.1@.len() == 0
                    &&& final(self).player_msg_index == old(self).player_msg_index
                    &&& final(self).player_msg_q@ == old(self).player_msg_q@
                    &&& if (exists|k: int|
                        0 <= k < old(self).server_msg_q@.len() && (#[trigger] old(
                            self,
                        ).server_msg_q@[k]).id == id) {
                        exists|k: int|
                            {
                                &&& 0 <= k < old(self).server_msg_q@.len()
                                &&& (#[trigger] old(self).server_msg_q@[k]).id == id
                                &&& forall|j: int|
                                    0 <= j < k ==> (#[trigger] old(self).server_msg_q@[j]).id
                                        != id
                                &&& final(self).server_msg_q@ == old(self).server_msg_q@.remove(
                                    k,
                                )
                            }
                    } else {
                        final(self).server_msg_q@ == old(self).server_msg_q@
                    }
                },
                ReliablePacketIn::Msg(id, m) => {
                    &&& final(self).server_msg_q@ == old(self).server_msg_q@
                    &&& if id == old(self).player_msg_index + 1 {
                        // delivery: the new message, then the directly
                        // following buffered run, one ack per delivery
                        &&& r.0@.len() >= 1
                        &&& r.0@[0] == m
                        &&& final(self).player_msg_index == old(self).player_msg_index
                            + r.0@.len()
                        &&& r.1@.len() == r.0@.len()
                        &&& forall|k: int| 0 <= k < r.1@.len()
                            ==> ((#[trigger] r.1@[k]) matches ReliablePacketOut::Ack(a) && a
                                == old(self).player_msg_index + 1 + k)
                    } else if id > old(self).player_msg_index + 1 {
                        // early: buffer it, re-acknowledge the last delivery
                        &&& r.0@.len() == 0
                        &&& final(self).player_msg_index == old(self).player_msg_index
                        &&& final(self).player_msg_q@.len() == old(self).player_msg_q@.len() + 1
                        &&& final(self).player_msg_q@.last().id == id
                        &&& final(self).player_msg_q@.last().msg == m
                        &&& r.1@ =~= seq![
                            ReliablePacketOut::Ack(old(self).player_msg_index),
                        ]
                    } else {
                        // repeat: acknowledge again, deliver nothing
                        &&& r.0@.len() == 0
                        &&& final(self).player_msg_index == old(self).player_msg_index
                        &&& final(self).player_msg_q@ == old(self).player_msg_q@
                        &&& r.1@ =~= seq![ReliablePacketOut::Ack(id)]
                    }
                },
            },
    {
        let mut emitted: Vec<PlayerMessage> = Vec::new();
        let mut outgoing: Vec<ReliablePacketOut> = Vec::new();
        match frame {
            ReliablePacketIn::Ack(id) => {
                let mut k: usize = 0;
                let q_len = self.server_msg_q.len();
                while k < q_len
                    invariant
                        k <= q_len,
                        q_len == self.server_msg_q@.len(),
                        *self == *old(self),
                        emitted@.len() == 0,
                        outgoing@.len() == 0,
                        forall|j: int| 0 <= j < k
                            ==> (#[trigger] old(self).server_msg_q@[j]).id != id,
                    decreases q_len - k,
                {
                    if self.server_msg_q[k].id == id {
                        self.server_msg_q.remove(k);
                        proof {
                            assert(self.delivered@ =~= old(self).delivered@ + Seq::new(
                                0,
                                |j: int| old(self).player_msg_index + j + 1,
                            ));
                        }
                        return (emitted, outgoing);
                    }
                    k += 1;
                }
                proof {
                    assert(self.delivered@ =~= old(self).delivered@ + Seq::new(
                        0,
                        |j: int| old(self).player_msg_index + j + 1,
                    ));
                }
                (emitted, outgoing)
            },
            ReliablePacketIn::Msg(id, m) => {
                let expected = self.player_msg_index + 1;
                if id == expected {
                    self.player_msg_index = expected;
                    self.delivered = Ghost(self.delivered@.push(expected as int));
                    proof {
                        assert(self.delivered@ =~= Seq::new(
                            self.player_msg_index as nat,
                            |k: int| k + 1,
                        ));
                    }
                    emitted.push(m);
                    outgoing.push(ReliablePacketOut::Ack(id));
                    self.process_queue(&mut emitted, &mut outgoing);
                    proof {
                        assert(emitted@.take(1)[0] == emitted@[0]);
                        assert(emitted@[0] == m);
                        assert(self.delivered@ =~= old(self).delivered@ + Seq::new(
                            (self.player_msg_index - old(self).player_msg_index) as nat,
                            |k: int| old(self).player_msg_index + k + 1,
                        ));
                    }
                    (emitted, outgoing)
                } else if id > expected {
                    self.player_msg_q.push(PendingMessage { id, msg: m });
                    outgoing.push(ReliablePacketOut::Ack(self.player_msg_index));
                    proof {
                        assert(self.delivered@ =~= old(self).delivered@ + Seq::new(
                            0,
                            |k: int| old(self).player_msg_index + k + 1,
                        ));
                    }
                    (emitted, outgoing)
                } else {
                    outgoing.push(ReliablePacketOut::Ack(id));
                    proof {
                        assert(self.delivered@ =~= old(self).delivered@ + Seq::new(
                            0,
                            |k: int| old(self).player_msg_index + k + 1,
                        ));
                    }
                    (emitted, outgoing)
                }
            },
        }
    }

    /// Drains the inbound buffer of every id that is now directly next,
    /// delivering and acknowledging each in id order.
    #[verifier::loop_isolation(false)]
    fn process_queue(
        &mut self,
        emitted: &mut Vec<PlayerMessage>,
        outgoing: &mut Vec<ReliablePacketOut>,
    )
        requires
            old(self).wf(),
            old(self).player_msg_index < usize::MAX - old(self).player_msg_q@.len(),
            old(emitted)@.len() > 0,
            old(outgoing)@.len() == old(emitted)@.len(),
            forall|k: int| 0 <= k < old(outgoing)@.len()
                ==> ((#[trigger] old(outgoing)@[k]) matches ReliablePacketOut::Ack(a) && a
                    == old(self).player_msg_index - old(outgoing)@.len() + 1 + k),
        ensures
            final(self).wf(),
            final(self).server_msg_index == old(self).server_msg_index,
            final(self).server_msg_q@ == old(self).server_msg_q@,
            final(emitted)@.len() >= old(emitted)@.len(),
            final(emitted)@.take(old(emitted)@.len() as int) == old(emitted)@,
            final(self).player_msg_index - old(self).player_msg_index == final(emitted)@.len()
                - old(emitted)@.len(),
            final(outgoing)@.len() == final(emitted)@.len(),
            forall|k: int| 0 <= k < final(outgoing)@.len()
                ==> ((#[trigger] final(outgoing)@[k]) matches ReliablePacketOut::Ack(a) && a
                    == final(self).player_msg_index - final(outgoing)@.len() + 1 + k),
            final(self).delivered@ == old(self).delivered@ + Seq::new(
                (final(self).player_msg_index - old(self).player_msg_index) as nat,
                |k: int| old(self).player_msg_index + k + 1,
            ),
        decreases old(self).player_msg_q@.len(),
    {
        let expected = self.player_msg_index + 1;
        let mut k: usize = 0;
        let q_len = self.player_msg_q.len();
        while k < q_len
            invariant
                k <= q_len,
                q_len == self.player_msg_q@.len(),
                *self == *old(self),
                emitted@ == old(emitted)@,
                outgoing@ == old(outgoing)@,
                expected == self.player_msg_index + 1,
                forall|j: int| 0 <= j < k ==> (#[trigger] self.player_msg_q@[j]).id != expected,
            decreases q_len - k,
        {
            if self.player_msg_q[k].id == expected {
                let pending = self.player_msg_q.remove(k);
                self.player_msg_index = expected;
                self.delivered = Ghost(self.delivered@.push(expected as int));
                proof {
                    assert(self.delivered@ =~= Seq::new(
                        self.player_msg_index as nat,
                        |j: int| j + 1,
                    ));
                }
                emitted.push(pending.msg);
                outgoing.push(ReliablePacketOut::Ack(expected));
                let ghost mid_emitted = emitted@;
                let ghost mid_outgoing = outgoing@;
                let ghost mid_index = self.player_msg_index;
                proof {
                    assert forall|j: int| 0 <= j < mid_outgoing.len() implies ((
                    #[trigger] mid_outgoing[j]) matches ReliablePacketOut::Ack(a) && a
                        == mid_index - mid_outgoing.len() + 1 + j) by {
                        if j < mid_outgoing.len() - 1 {
                            assert(mid_outgoing[j] == old(outgoing)@[j]);
                        }
                    }
                }
                self.process_queue(emitted, outgoing);
                proof {
                    assert(emitted@.take(mid_emitted.len() as int) == mid_emitted);
                    assert(emitted@.take(old(emitted)@.len() as int) =~= old(emitted)@);
                    assert(self.delivered@ =~= old(self).delivered@ + Seq::new(
                        (self.player_msg_index - old(self).player_msg_index) as nat,
                        |j: int| old(self).player_msg_index + j + 1,
                    ));
                }
                return;
            }
            k += 1;
        }
        proof {
            assert(self.delivered@ =~= old(self).delivered@ + Seq::new(
                0,
                |j: int| old(self).player_msg_index + j + 1,
            ));
            assert(emitted@.take(old(emitted)@.len() as int) =~= old(emitted)@);
        }
    }

    /// Assigns the next outbound id to a message and queues it as not yet
    /// acknowledged.
    pub fn send(&mut self, msg: ServerMessage, now_ms: u64) -> (pkt: ReliablePacketOut)
        requires
            old(self).wf(),
            old(self).server_msg_index < usize::MAX,
        ensures
            final(self).wf(),
            final(self).player_msg_index == old(self).player_msg_index,
            final(self).player_msg_q@ == old(self).player_msg_q@,
            final(self).delivered@ == old(self).delivered@,
            final(self).server_msg_index == old(self).server_msg_index + 1,
            (pkt matches ReliablePacketOut::Msg { id, msg: wire, retry_count } && id == old(
                self,
            ).server_msg_index + 1 && retry_count == 0 && crate::codec::spec_server_msg(wire)
                == crate::codec::spec_server_msg(msg)),
            final(self).server_msg_q@.len() == old(self).server_msg_q@.len() + 1,
            final(self).server_msg_q@.take(old(self).server_msg_q@.len() as int) == old(
                self,
            ).server_msg_q@,
            final(self).server_msg_q@.last().id == old(self).server_msg_index + 1,
            final(self).server_msg_q@.last().msg == msg,
            final(self).server_msg_q@.last().sent_at == now_ms,
            final(self).server_msg_q@.last().retry_count == 0,
    {
        self.server_msg_index = self.server_msg_index + 1;
        let id = self.server_msg_index;
        let msg_clone = msg.duplicate();
        self.server_msg_q.push(QueuedMessage { sent_at: now_ms, id, msg, retry_count: 0 });
        proof {
            assert(final(self).server_msg_q@.take(old(self).server_msg_q@.len() as int)
                =~= old(self).server_msg_q@);
        }
        ReliablePacketOut::Msg { id, msg: msg_clone, retry_count: 0 }
    }

    /// True when some overdue entry has exhausted its retries.
    fn lost_peer(&self, now_ms: u64) -> (r: bool)
        ensures
            r == (exists|k: int|
                0 <= k < self.server_msg_q@.len() && is_due(
                    #[trigger] self.server_msg_q@[k],
                    now_ms,
                ) && self.server_msg_q@[k].retry_count > RPKT_RETRY_LIMIT),
    {
        let mut k: usize = 0;
        let q_len = self.server_msg_q.len();
        while k < q_len
            invariant
                k <= q_len,
                q_len == self.server_msg_q@.len(),
                forall|j: int| 0 <= j < k ==> !(is_due(
                    #[trigger] self.server_msg_q@[j],
                    now_ms,
                ) && self.server_msg_q@[j].retry_count > RPKT_RETRY_LIMIT),
            decreases q_len - k,
        {
            let due = now_ms >= self.server_msg_q[k].sent_at
                && now_ms - self.server_msg_q[k].sent_at >= QUEUE_RESEND_TIMEOUT_MS;
            if due && self.server_msg_q[k].retry_count > RPKT_RETRY_LIMIT {
                return true;
            }
            k += 1;
        }
        false
    }

    /// Re-stamps every entry older than the resend timeout and returns
    /// those entries for the wire, in queue order, together with the ghost
    /// positions they came from; everything else stays as it was.  Returns
    /// `true` in the flag instead when some overdue entry has exhausted its
    /// retries: the peer is considered lost.
    #[verifier::loop_isolation(false)]
    pub fn resend_due(&mut self, now_ms: u64) -> (r: (
        Vec<ReliablePacketOut>,
        bool,
        Ghost<Seq<int>>,
    ))
        requires
            old(self).wf(),
        ensures
            final(self).wf(),
            final(self).player_msg_index == old(self).player_msg_index,
            final(self).player_msg_q@ == old(self).player_msg_q@,
            final(self).delivered@ == old(self).delivered@,
            final(self).server_msg_index == old(self).server_msg_index,
            r.1 == (exists|k: int|
                0 <= k < old(self).server_msg_q@.len() && is_due(
                    #[trigger] old(self).server_msg_q@[k],
                    now_ms,
                ) && old(self).server_msg_q@[k].retry_count > RPKT_RETRY_LIMIT),
            r.1 ==> final(self).server_msg_q@ == old(self).server_msg_q@ && r.0@.len() == 0,
            !r.1 ==> {
                &&& final(self).server_msg_q@.len() == old(self).server_msg_q@.len()
                &&& forall|k: int| 0 <= k < old(self).server_msg_q@.len() && !is_due(
                    #[trigger] old(self).server_msg_q@[k],
                    now_ms,
                ) ==> final(self).server_msg_q@[k] == old(self).server_msg_q@[k]
                &&& forall|k: int| 0 <= k < old(self).server_msg_q@.len() && is_due(
                    #[trigger] old(self).server_msg_q@[k],
                    now_ms,
                ) ==> {
                    &&& final(self).server_msg_q@[k].id == old(self).server_msg_q@[k].id
                    &&& final(self).server_msg_q@[k].msg == old(self).server_msg_q@[k].msg
                    &&& final(self).server_msg_q@[k].sent_at == now_ms
                    &&& final(self).server_msg_q@[k].retry_count == old(
                        self,
                    ).server_msg_q@[k].retry_count + 1
                }
                &&& resend_matches(r.0@, r.2@, old(self).server_msg_q@, now_ms)
            },
    {
        if self.lost_peer(now_ms) {
            return (Vec::new(), true, Ghost(Seq::empty()));
        }
        let q_len = self.server_msg_q.len();
        // re-stamp and collect the overdue entries
        let mut resend: Vec<ReliablePacketOut> = Vec::new();
        let ghost mut srcs: Seq<int> = Seq::empty();
        let mut k2: usize = 0;
        while k2 < q_len
            invariant
                k2 <= q_len,
                q_len == self.server_msg_q@.len(),
                old(self).server_msg_q@.len() == q_len,
                self.player_msg_index == old(self).player_msg_index,
                self.player_msg_q@ == old(self).player_msg_q@,
                self.delivered@ == old(self).delivered@,
                self.server_msg_index == old(self).server_msg_index,
                forall|j: int| k2 <= j < q_len
                    ==> (#[trigger] self.server_msg_q@[j]) == old(self).server_msg_q@[j],
                forall|j: int| 0 <= j < k2 && !is_due(
                    #[trigger] old(self).server_msg_q@[j],
                    now_ms,
                ) ==> self.server_msg_q@[j] == old(self).server_msg_q@[j],
                forall|j: int| 0 <= j < k2 && is_due(
                    #[trigger] old(self).server_msg_q@[j],
                    now_ms,
                ) ==> {
                    &&& self.server_msg_q@[j].id == old(self).server_msg_q@[j].id
                    &&& self.server_msg_q@[j].msg == old(self).server_msg_q@[j].msg
                    &&& self.server_msg_q@[j].sent_at == now_ms
                    &&& self.server_msg_q@[j].retry_count == old(
                        self,
                    ).server_msg_q@[j].retry_count + 1
                },
                forall|j: int| 0 <= j < q_len ==> !(is_due(
                    #[trigger] old(self).server_msg_q@[j],
                    now_ms,
                ) && old(self).server_msg_q@[j].retry_count > RPKT_RETRY_LIMIT),
                srcs.len() == resend@.len(),
                forall|p: int| 0 <= p < srcs.len() ==> 0 <= #[trigger] srcs[p] < k2,
                forall|p: int| 0 <= p < srcs.len() ==> is_due(
                    old(self).server_msg_q@[#[trigger] srcs[p]],
                    now_ms,
                ),
                forall|p: int| 0 <= p < srcs.len() ==> ((#[trigger] resend@[p]) matches
                    ReliablePacketOut::Msg { id, msg, retry_count } && id == old(
                    self,
                ).server_msg_q@[srcs[p]].id && retry_count == old(
                    self,
                ).server_msg_q@[srcs[p]].retry_count + 1
                    && crate::codec::spec_server_msg(msg) == crate::codec::spec_server_msg(
                    old(self).server_msg_q@[srcs[p]].msg,
                )),
                forall|j: int| 0 <= j < k2 && is_due(
                    #[trigger] old(self).server_msg_q@[j],
                    now_ms,
                ) ==> srcs.contains(j),
            decreases q_len - k2,
        {
            let due = now_ms >= self.server_msg_q[k2].sent_at
                && now_ms - self.server_msg_q[k2].sent_at >= QUEUE_RESEND_TIMEOUT_MS;
            proof {
                assert(self.server_msg_q@[k2 as int] == old(self).server_msg_q@[k2 as int]);
                assert(due == is_due(old(self).server_msg_q@[k2 as int], now_ms));
            }
            if due {
                let ghost srcs0 = srcs;
                let id = self.server_msg_q[k2].id;
                let retry_count = self.server_msg_q[k2].retry_count + 1;
                self.server_msg_q[k2].sent_at = now_ms;
                self.server_msg_q[k2].retry_count = retry_count;
                let msg_copy = self.server_msg_q[k2].msg.duplicate();
                resend.push(ReliablePacketOut::Msg { id, msg: msg_copy, retry_count });
                proof {
                    srcs = srcs.push(k2 as int);
                    assert forall|j: int| 0 <= j < k2 + 1 && is_due(
                        #[trigger] old(self).server_msg_q@[j],
                        now_ms,
                    ) implies srcs.contains(j) by {
                        if j < k2 {
                            let p = choose|p: int| 0 <= p < srcs0.len() && srcs0[p] == j;
                            assert(srcs[p] == j);
                        } else {
                            assert(srcs.last() == k2 as int);
                        }
                    }
                }
            }
            k2 += 1;
        }
        proof {
            assert forall|j: int| 0 <= j < self.server_msg_q@.len() implies (
            #[trigger] self.server_msg_q@[j]).id <= self.server_msg_index by {
                assert(self.server_msg_q@[j].id == old(self).server_msg_q@[j].id);
            }
        }
        (resend, false, Ghost(srcs))
    }
}

/// The collected retransmissions mirror the overdue queue entries: entry
/// `srcs[p]` of the queue gave packet `p`, with the same id, the same wire
/// text and one more retry; every overdue position appears.
pub open spec fn resend_matches(
    packets: Seq<ReliablePacketOut>,
    srcs: Seq<int>,
    q: Seq<QueuedMessage>,
    now_ms: u64,
) -> bool {
    &&& srcs.len() == packets.len()
    &&& forall|p: int| 0 <= p < srcs.len() ==> 0 <= #[trigger] srcs[p] < q.len()
    &&& forall|p: int| 0 <= p < srcs.len() ==> is_due(q[#[trigger] srcs[p]], now_ms)
    &&& forall|p: int| 0 <= p < srcs.len() ==> ((#[trigger] packets[p]) matches
        ReliablePacketOut::Msg { id, msg, retry_count } && id == q[srcs[p]].id && retry_count
        == q[srcs[p]].retry_count + 1 && crate::codec::spec_server_msg(msg)
        == crate::codec::spec_server_msg(q[srcs[p]].msg))
    &&& forall|j: int| 0 <= j < q.len() && is_due(#[trigger] q[j], now_ms) ==> srcs.contains(j)
}

impl ReliabilityLayer {
    /// Re-stamps every overdue entry without emitting anything; used while
    /// no socket is attached.
    #[verifier::loop_isolation(false)]
    pub fn refresh_due(&mut self, now_ms: u64)
        requires
            old(self).wf(),
        ensures
            final(self).wf(),
            final(self).player_msg_index == old(self).player_msg_index,
            final(self).player_msg_q@ == old(self).player_msg_q@,
            final(self).delivered@ == old(self).delivered@,
            final(self).server_msg_index == old(self).server_msg_index,
            final(self).server_msg_q@.len() == old(self).server_msg_q@.len(),
            forall|k: int| 0 <= k < old(self).server_msg_q@.len() && !is_due(
                #[trigger] old(self).server_msg_q@[k],
                now_ms,
            ) ==> final(self).server_msg_q@[k] == old(self).server_msg_q@[k],
            forall|k: int| 0 <= k < old(self).server_msg_q@.len() && is_due(
                #[trigger] old(self).server_msg_q@[k],
                now_ms,
            ) ==> {
                &&& final(self).server_msg_q@[k].id == old(self).server_msg_q@[k].id
                &&& final(self).server_msg_q@[k].msg == old(self).server_msg_q@[k].msg
                &&& final(self).server_msg_q@[k].sent_at == now_ms
                &&& final(self).server_msg_q@[k].retry_count == old(
                    self,
                ).server_msg_q@[k].retry_count
            },
    {
        let q_len = self.server_msg_q.len();
        let mut k: usize = 0;
        while k < q_len
            invariant
                k <= q_len,
                q_len == self.server_msg_q@.len(),
                self.player_msg_index == old(self).player_msg_index,
                self.player_msg_q@ == old(self).player_msg_q@,
                self.delivered@ == old(self).delivered@,
                self.server_msg_index == old(self).server_msg_index,
                forall|j: int| k <= j < q_len
                    ==> (#[trigger] self.server_msg_q@[j]) == old(self).server_msg_q@[j],
                forall|j: int| 0 <= j < k && !is_due(
                    #[trigger] old(self).server_msg_q@[j],
                    now_ms,
                ) ==> self.server_msg_q@[j] == old(self).server_msg_q@[j],
                forall|j: int| 0 <= j < k && is_due(
                    #[trigger] old(self).server_msg_q@[j],
                    now_ms,
                ) ==> {
                    &&& self.server_msg_q@[j].id == old(self).server_msg_q@[j].id
                    &&& self.server_msg_q@[j].msg == old(self).server_msg_q@[j].msg
                    &&& self.server_msg_q@[j].sent_at == now_ms
                    &&& self.server_msg_q@[j].retry_count == old(
                        self,
                    ).server_msg_q@[j].retry_count
                },
            decreases q_len - k,
        {
            let due = now_ms >= self.server_msg_q[k].sent_at
                && now_ms - self.server_msg_q[k].sent_at >= QUEUE_RESEND_TIMEOUT_MS;
            if due {
                self.server_msg_q[k].sent_at = now_ms;
            }
            k += 1;
        }
        proof {
            assert forall|j: int| 0 <= j < self.server_msg_q@.len() implies (
            #[trigger] self.server_msg_q@[j]).id <= self.server_msg_index by {
                assert(self.server_msg_q@[j].id == old(self).server_msg_q@[j].id);
            }
        }
    }
}

/// An outbound entry is overdue once the resend timeout has elapsed.
pub open spec fn is_due(entry: QueuedMessage, now_ms: u64) -> bool {
    now_ms >= entry.sent_at && now_ms - entry.sent_at >= QUEUE_RESEND_TIMEOUT_MS
}

/// Reliability ordering: of any two deliveries to the session, the earlier
/// one carries the smaller id.
pub proof fn lemma_delivery_ordered(a: ReliabilityLayer, i: int, j: int)
    requires
        a.wf(),
        0 <= i < j < a.delivered@.len(),
    ensures
        a.delivered@[i] < a.delivered@[j],
{
}

/// At-most-once delivery: no id is handed to the session twice.
pub proof fn lemma_delivery_at_most_once(a: ReliabilityLayer, i: int, j: int)
    requires
        a.wf(),
        0 <= i < a.delivered@.len(),
        0 <= j < a.delivered@.len(),
        i != j,
    ensures
        a.delivered@[i] != a.delivered@[j],
{
}

} // verus!

//! The decisions of the receiving side: what it counts, what it reports as
//! lost, and what it answers, for each packet it gets.

use vstd::prelude::*;
use std::collections::BTreeMap;
use crate::encapsuler::{BenchPayload, PayloadType};
use crate::ordered::{keys_increasing, lists_entries, sorted_entries};
use crate::wire::Timestamp;

verus! {

/// What the receiving loop got from its channel.
pub enum ReceiverEvent {
    /// A payload from the distant machine, with the time it arrived.
    FromDist(BenchPayload, Timestamp),
    /// A packet from any other machine.
    FromOther,
    /// The receive call failed.
    ReceiveError,
}

/// A range of sequence numbers, both ends included.
#[derive(Clone, Copy, Debug, PartialEq, Eq, Structural)]
pub struct SeqRange {
    pub first: u64,
    pub last: u64,
}

impl SeqRange {
    /// Whether `s` lies in the range.
    pub open spec fn contains(self, s: u64) -> bool {
        self.first <= s <= self.last
    }
}

/// What the receiving loop does next.
#[derive(Clone, Copy, Debug, PartialEq, Eq, Structural)]
pub enum ReceiverAction {
    /// Nothing to send or report.
    Nothing,
    /// A sequence packet was counted; `missing` is the range of sequence
    /// numbers (first and last, both included) that never arrived before it.
    Counted { missing: Option<SeqRange> },
    /// Send an update answer carrying `count`.
    SendUpdateAnswer { count: u64 },
    /// Send a finish answer carrying `count`, then wait for the acknowledgement.
    SendFinishAnswer { count: u64 },
    /// A payload of a type that only the receiver sends arrived.
    Misdirected { payload_type: PayloadType },
    /// The final count was acknowledged: stop.
    Finished,
}

/// The state of the receiving side as a mathematical value.
pub struct ReceiverView {
    pub total_packets: u64,
    pub partial_packets: u64,
    pub last_rcv_seq: u64,
    pub call_ack: bool,
    pub finishing: bool,
    pub terminated: bool,
    pub received: Map<u64, Timestamp>,
}

impl ReceiverView {
    /// The partial count never exceeds the total, and the arrival times are
    /// kept for at most as many sequence numbers as packets were counted.
    pub open spec fn wf(self) -> bool {
        &&& self.partial_packets <= self.total_packets
        &&& self.received.dom().finite()
        &&& self.received.dom().len() <= self.total_packets
    }

    /// Whether the receiver can take `e` without an arithmetic overflow or an
    /// unknown payload type.
    pub open spec fn accepts(self, e: ReceiverEvent) -> bool {
        match e {
            ReceiverEvent::FromDist(p, _) => !self.terminated && !self.finishing ==> {
                &&& p.payload_type < 6
                &&& p.payload_type == 0 ==> self.total_packets < u64::MAX && self.last_rcv_seq
                    < u64::MAX
            },
            _ => true,
        }
    }

    /// The state after counting sequence packet `p` that arrived at `t`.
    pub open spec fn count_sequence(self, p: BenchPayload, t: Timestamp) -> ReceiverView {
        ReceiverView {
            total_packets: (self.total_packets + 1) as u64,
            partial_packets: (if self.call_ack {
                self.partial_packets + 1
            } else {
                1
            }) as u64,
            last_rcv_seq: p.seq,
            call_ack: true,
            received: self.received.insert(p.seq, t),
            ..self
        }
    }

    /// The sequence numbers lost between the last one received and `seq`.
    pub open spec fn missing_before(self, seq: u64) -> Option<SeqRange> {
        if self.last_rcv_seq + 1 < seq {
            Some(SeqRange { first: (self.last_rcv_seq + 1) as u64, last: (seq - 1) as u64 })
        } else {
            None
        }
    }

    /// The next state and the action for event `e`.
    pub open spec fn step(self, e: ReceiverEvent) -> (ReceiverView, ReceiverAction) {
        if self.terminated {
            (self, ReceiverAction::Nothing)
        } else if self.finishing {
            match e {
                ReceiverEvent::FromDist(p, _) => if p.step == 1 && p.payload_type == 4 {
                    (
                        ReceiverView { call_ack: true, finishing: false, terminated: true, ..self },
                        ReceiverAction::Finished,
                    )
                } else {
                    (self, ReceiverAction::SendFinishAnswer { count: self.total_packets })
                },
                _ => (self, ReceiverAction::SendFinishAnswer { count: self.total_packets }),
            }
        } else {
            match e {
                ReceiverEvent::FromDist(p, t) => if p.payload_type == 0 {
                    (
                        self.count_sequence(p, t),
                        ReceiverAction::Counted { missing: self.missing_before(p.seq) },
                    )
                } else if p.payload_type == 2 {
                    (
                        ReceiverView { call_ack: false, ..self },
                        ReceiverAction::SendUpdateAnswer { count: self.partial_packets },
                    )
                } else if p.payload_type == 3 {
                    (self, ReceiverAction::Misdirected { payload_type: PayloadType::UpdateAnswer })
                } else if p.payload_type == 4 {
                    (
                        ReceiverView { call_ack: false, finishing: true, ..self },
                        ReceiverAction::SendFinishAnswer { count: self.total_packets },
                    )
                } else if p.payload_type == 5 {
                    (self, ReceiverAction::Misdirected { payload_type: PayloadType::FinishAnswer })
                } else {
                    (self, ReceiverAction::Nothing)
                },
                _ => (self, ReceiverAction::Nothing),
            }
        }
    }
}

/// The receiving side: its counters, the last sequence number it got, and the
/// arrival time of each sequence number.
pub struct ReceiverState {
    total_packets: u64,
    partial_packets: u64,
    last_rcv_seq: u64,
    call_ack: bool,
    finishing: bool,
    terminated: bool,
    packet_map: BTreeMap<u64, Timestamp>,
}

impl View for ReceiverState {
    type V = ReceiverView;

    closed spec fn view(&self) -> ReceiverView {
        ReceiverView {
            total_packets: self.total_packets,
            partial_packets: self.partial_packets,
            last_rcv_seq: self.last_rcv_seq,
            call_ack: self.call_ack,
            finishing: self.finishing,
            terminated: self.terminated,
            received: self.packet_map@,
        }
    }
}

impl ReceiverState {
    /// A receiver that has counted nothing yet.
    pub fn new() -> (s: ReceiverState)
        ensures
            s@ == (ReceiverView {
                total_packets: 0,
                partial_packets: 0,
                last_rcv_seq: 0,
                call_ack: false,
                finishing: false,
                terminated: false,
                received: Map::empty(),
            }),
            s@.wf(),
    {
        ReceiverState {
            total_packets: 0,
            partial_packets: 0,
            last_rcv_seq: 0,
            call_ack: false,
            finishing: false,
            terminated: false,
            packet_map: BTreeMap::new(),
        }
    }

    /// Whether the receiver can take `e` without an arithmetic overflow or an
    /// unknown payload type.
    pub fn accepts(&self, e: &ReceiverEvent) -> (r: bool)
        ensures
            r == self@.accepts(*e),
    {
        match e {
            ReceiverEvent::FromDist(p, _) => {
                if self.terminated || self.finishing {
                    true
                } else {
                    p.payload_type < 6 && (p.payload_type != 0 || (self.total_packets < u64::MAX
                        && self.last_rcv_seq < u64::MAX))
                }
            },
            _ => true,
        }
    }

    /// Takes one event: updates the counters as the receiving loop does and
    /// says what to do next.
    pub fn step(&mut self, e: ReceiverEvent) -> (action: ReceiverAction)
        requires
            old(self)@.wf(),
            old(self)@.accepts(e),
        ensures
            (final(self)@, action) == old(self)@.step(e),
            final(self)@.wf(),
    {
        broadcast use vstd::std_specs::btree::group_btree_axioms;
        if self.terminated {
            return ReceiverAction::Nothing;
        }
        if self.finishing {
            match e {
                ReceiverEvent::FromDist(p, _) => {
                    if p.step == 1 && p.payload_type == 4 {
                        self.call_ack = true;
                        self.finishing = false;
                        self.terminated = true;
                        ReceiverAction::Finished
                    } else {
                        ReceiverAction::SendFinishAnswer { count: self.total_packets }
                    }
                },
                _ => ReceiverAction::SendFinishAnswer { count: self.total_packets },
            }
        } else {
            match e {
                ReceiverEvent::FromDist(p, t) => {
                    if p.payload_type == 0 {
                        if !self.call_ack {
                            self.call_ack = true;
                            self.partial_packets = 0;
                        }
                        self.total_packets = self.total_packets + 1;
                        self.partial_packets = self.partial_packets + 1;
                        let ghost old_map = self.packet_map@;
                        self.packet_map.insert(p.seq, t);
                        proof {
                            vstd::set_lib::lemma_len_subset(
                                old_map.insert(p.seq, t).dom(),
                                old_map.dom().insert(p.seq),
                            );
                        }
                        let missing = if self.last_rcv_seq + 1 < p.seq {
                            Some(SeqRange { first: self.last_rcv_seq + 1, last: p.seq - 1 })
                        } else {
                            None
                        };
                        self.last_rcv_seq = p.seq;
                        ReceiverAction::Counted { missing }
                    } else if p.payload_type == 2 {
                        self.call_ack = false;
                        ReceiverAction::SendUpdateAnswer { count: self.partial_packets }
                    } else if p.payload_type == 3 {
                        ReceiverAction::Misdirected { payload_type: PayloadType::UpdateAnswer }
                    } else if p.payload_type == 4 {
                        self.call_ack = false;
                        self.finishing = true;
                        ReceiverAction::SendFinishAnswer { count: self.total_packets }
                    } else if p.payload_type == 5 {
                        ReceiverAction::Misdirected { payload_type: PayloadType::FinishAnswer }
                    } else {
                        ReceiverAction::Nothing
                    }
                },
                _ => ReceiverAction::Nothing,
            }
        }
    }
}

impl ReceiverState {
    /// Packets counted since the start.
    pub fn total_packets(&self) -> (r: u64)
        ensures
            r == self@.total_packets,
    {
        self.total_packets
    }

    /// Packets counted since the last update call was answered.
    pub fn partial_packets(&self) -> (r: u64)
        ensures
            r == self@.partial_packets,
    {
        self.partial_packets
    }

    /// The last sequence number received.
    pub fn last_rcv_seq(&self) -> (r: u64)
        ensures
            r == self@.last_rcv_seq,
    {
        self.last_rcv_seq
    }

    /// Whether the final count was acknowledged.
    pub fn is_terminated(&self) -> (r: bool)
        ensures
            r == self@.terminated,
    {
        self.terminated
    }

    /// Whether the receiver waits for the acknowledgement of its final count.
    pub fn is_finishing(&self) -> (r: bool)
        ensures
            r == self@.finishing,
    {
        self.finishing
    }

    /// The arrival time of each sequence number received, sequence numbers
    /// increasing.
    pub fn received_in_order(&self) -> (r: Vec<(u64, Timestamp)>)
        ensures
            keys_increasing(r@),
            lists_entries(r@, self@.received),
    {
        sorted_entries(&self.packet_map)
    }
}

/// A reported loss is exactly the sequence numbers strictly between the last
/// one received and the one that just arrived; none is reported when no number
/// lies between them.
pub proof fn lemma_loss_report(v: ReceiverView, p: BenchPayload, t: Timestamp)
    requires
        !v.terminated,
        !v.finishing,
        p.payload_type == 0,
        v.last_rcv_seq < u64::MAX,
    ensures
        v.step(ReceiverEvent::FromDist(p, t)).1 == (ReceiverAction::Counted {
            missing: v.missing_before(p.seq),
        }),
        v.missing_before(p.seq) is None <==> p.seq <= v.last_rcv_seq + 1,
        v.missing_before(p.seq) matches Some(r) ==> forall|s: u64|
            #[trigger] r.contains(s) <==> v.last_rcv_seq < s < p.seq,
{
}

/// Counting a sequence packet adds one to the total, records its arrival time
/// under its sequence number, and makes it the last one received.
pub proof fn lemma_count_sequence(v: ReceiverView, p: BenchPayload, t: Timestamp)
    requires
        !v.terminated,
        !v.finishing,
        p.payload_type == 0,
        v.total_packets < u64::MAX,
    ensures
        ({
            let w = v.step(ReceiverEvent::FromDist(p, t)).0;
            &&& w.total_packets == v.total_packets + 1
            &&& w.last_rcv_seq == p.seq
            &&& w.received.contains_key(p.seq) && w.received[p.seq] == t
            &&& forall|s: u64| s != p.seq ==> w.received.contains_key(s) == v.received.contains_key(s)
        }),
{
}

/// An update call is answered with the packets counted since the previous one,
/// and the next sequence packet starts a new partial count at 1.
pub proof fn lemma_update_call_restarts_partial(
    v: ReceiverView,
    call: BenchPayload,
    t1: Timestamp,
    p: BenchPayload,
    t2: Timestamp,
)
    requires
        !v.terminated,
        !v.finishing,
        call.payload_type == 2,
        p.payload_type == 0,
        v.total_packets < u64::MAX,
    ensures
        ({
            let (w1, a1) = v.step(ReceiverEvent::FromDist(call, t1));
            let (w2, a2) = w1.step(ReceiverEvent::FromDist(p, t2));
            &&& a1 == ReceiverAction::SendUpdateAnswer { count: v.partial_packets }
            &&& w2.partial_packets == 1
            &&& w2.total_packets == v.total_packets + 1
        }),
{
}

/// Once the finish handshake began, every event that is not the
/// acknowledgement is answered again with the total count, and the counters
/// stay.
pub proof fn lemma_finish_answers_total(v: ReceiverView, e: ReceiverEvent)
    requires
        !v.terminated,
        v.finishing,
        !(e matches ReceiverEvent::FromDist(p, _) && p.step == 1 && p.payload_type == 4),
    ensures
        v.step(e) == (v, ReceiverAction::SendFinishAnswer { count: v.total_packets }),
{
}

/// A finish call is answered with the total count, and the acknowledgement
/// (a finish call of step 1) ends the receiver.
pub proof fn lemma_finish_handshake(
    v: ReceiverView,
    call: BenchPayload,
    t1: Timestamp,
    ack: BenchPayload,
    t2: Timestamp,
)
    requires
        !v.terminated,
        !v.finishing,
        call.payload_type == 4,
        ack.payload_type == 4,
        ack.step == 1,
    ensures
        ({
            let (w1, a1) = v.step(ReceiverEvent::FromDist(call, t1));
            let (w2, a2) = w1.step(ReceiverEvent::FromDist(ack, t2));
            &&& a1 == ReceiverAction::SendFinishAnswer { count: v.total_packets }
            &&& a2 == ReceiverAction::Finished
            &&& w2.terminated
            &&& w2.total_packets == v.total_packets
            &&& w2.received == v.received
        }),
{
}

/// A receiver that ended stays as it is and does nothing.
pub proof fn lemma_terminated_stays(v: ReceiverView, e: ReceiverEvent)
    requires
        v.terminated,
    ensures
        v.step(e) == (v, ReceiverAction::Nothing),
{
}

/// While a partial count runs (an update call was answered and a sequence
/// packet counted since), each further sequence packet adds exactly one to it.
pub proof fn lemma_partial_count_adds_one(v: ReceiverView, p: BenchPayload, t: Timestamp)
    requires
        v.wf(),
        !v.terminated,
        !v.finishing,
        v.call_ack,
        p.payload_type == 0,
        v.total_packets < u64::MAX,
    ensures
        v.step(ReceiverEvent::FromDist(p, t)).0.partial_packets == v.partial_packets + 1,
        v.step(ReceiverEvent::FromDist(p, t)).0.total_packets == v.total_packets + 1,
{
}

/// Whether `e` is a sequence packet from the distant machine.
pub open spec fn is_sequence_packet(e: ReceiverEvent) -> bool {
    e matches ReceiverEvent::FromDist(p, _) && p.payload_type == 0
}

/// The state after the events `es`, one after the other.
pub open spec fn run_events(v: ReceiverView, es: Seq<ReceiverEvent>) -> ReceiverView
    decreases es.len(),
{
    if es.len() == 0 {
        v
    } else {
        run_events(v, es.drop_last()).step(es.last()).0
    }
}

/// Counting `es.len()` sequence packets in a row adds that many to the total,
/// and to the partial count if one runs, or starts it from that many.
proof fn lemma_run_sequence_packets(v: ReceiverView, es: Seq<ReceiverEvent>)
    requires
        v.wf(),
        !v.terminated,
        !v.finishing,
        es.len() >= 1,
        forall|i: int| 0 <= i < es.len() ==> is_sequence_packet(#[trigger] es[i]),
        v.total_packets + es.len() <= u64::MAX,
    ensures
        ({
            let w = run_events(v, es);
            &&& w.wf()
            &&& !w.terminated
            &&& !w.finishing
            &&& w.call_ack
            &&& w.total_packets == v.total_packets + es.len()
            &&& w.partial_packets == (if v.call_ack {
                v.partial_packets + es.len()
            } else {
                es.len() as int
            })
        }),
    decreases es.len(),
{
    let last = es.last();
    assert(is_sequence_packet(es[es.len() - 1]));
    let prev = es.drop_last();
    if es.len() == 1 {
        assert(prev.len() == 0);
        assert(run_events(v, prev) == v);
        match last {
            ReceiverEvent::FromDist(p, t) => {
                let w = v.count_sequence(p, t);
                assert(w.received.dom() =~= v.received.dom().insert(p.seq));
                vstd::set_lib::lemma_len_subset(w.received.dom(), v.received.dom().insert(p.seq));
            },
            _ => {},
        }
    } else {
        assert forall|i: int| 0 <= i < prev.len() implies is_sequence_packet(#[trigger] prev[i]) by {
            assert(prev[i] == es[i]);
        }
        lemma_run_sequence_packets(v, prev);
        let u = run_events(v, prev);
        match last {
            ReceiverEvent::FromDist(p, t) => {
                let w = u.count_sequence(p, t);
                assert(w.received.dom() =~= u.received.dom().insert(p.seq));
                vstd::set_lib::lemma_len_subset(w.received.dom(), u.received.dom().insert(p.seq));
            },
            _ => {},
        }
    }
}

/// An update call is answered with exactly the number of sequence packets
/// counted since the previous update call, when at least one was.
pub proof fn lemma_update_answer_counts_since_last_call(
    v: ReceiverView,
    call1: BenchPayload,
    t1: Timestamp,
    es: Seq<ReceiverEvent>,
    call2: BenchPayload,
    t2: Timestamp,
)
    requires
        v.wf(),
        !v.terminated,
        !v.finishing,
        call1.payload_type == 2,
        call2.payload_type == 2,
        es.len() >= 1,
        forall|i: int| 0 <= i < es.len() ==> is_sequence_packet(#[trigger] es[i]),
        v.total_packets + es.len() <= u64::MAX,
    ensures
        run_events(v.step(ReceiverEvent::FromDist(call1, t1)).0, es).step(
            ReceiverEvent::FromDist(call2, t2),
        ).1 == (ReceiverAction::SendUpdateAnswer { count: es.len() as u64 }),
{
    let w0 = v.step(ReceiverEvent::FromDist(call1, t1)).0;
    assert(!w0.call_ack && w0.total_packets == v.total_packets && w0.wf());
    lemma_run_sequence_packets(w0, es);
}

/// Only a sequence packet moves the last sequence number received, the total
/// count and the arrival times: any other event, an update call included,
/// leaves them as they are.
pub proof fn lemma_other_events_keep_sequence_state(v: ReceiverView, e: ReceiverEvent)
    requires
        !is_sequence_packet(e) || v.terminated || v.finishing,
    ensures
        v.step(e).0.last_rcv_seq == v.last_rcv_seq,
        v.step(e).0.total_packets == v.total_packets,
        v.step(e).0.received == v.received,
{
}

/// After an update call, the packet that follows the last one received is
/// reported with no loss.
pub proof fn lemma_no_loss_across_update_call(
    v: ReceiverView,
    call: BenchPayload,
    t1: Timestamp,
    p: BenchPayload,
    t2: Timestamp,
)
    requires
        !v.terminated,
        !v.finishing,
        call.payload_type == 2,
        p.payload_type == 0,
        v.last_rcv_seq < u64::MAX,
        p.seq == v.last_rcv_seq + 1,
    ensures
        v.step(ReceiverEvent::FromDist(call, t1)).0.step(ReceiverEvent::FromDist(p, t2)).1
            == (ReceiverAction::Counted { missing: None }),
{
    lemma_other_events_keep_sequence_state(v, ReceiverEvent::FromDist(call, t1));
}

} // verus!

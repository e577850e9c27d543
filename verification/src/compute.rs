//! The bookkeeping of the sending side's measuring loop: the counts it asks
//! the receiver for, and the integer figures of its periodic and final
//! reports.

use vstd::prelude::*;
use crate::utils::BenchPayload;

verus! {

/// The figures of a periodic report.
#[derive(Clone, Copy, Debug, PartialEq, Eq, Structural)]
pub struct PartialReport {
    /// KiB that the receiver got since the previous report.
    pub partial_amount_kib: i128,
    /// Packets that the receiver got since the previous report.
    pub partial_receiver_count: i128,
    /// Packets sent since the previous report.
    pub partial_total_packets: i128,
}

/// The figures of the final report.
#[derive(Clone, Copy, Debug, PartialEq, Eq, Structural)]
pub struct FinalReport {
    /// Packets sent.
    pub total_packets: i128,
    /// Packets that the receiver got.
    pub final_receiver_count: i128,
    /// MiB that the receiver got.
    pub total_transmitted_mib: u128,
}

/// How long an update call waits for its answer, in milliseconds.
pub const UPDATE_CALL_LIMIT_MS: u128 = 500;

/// How long a finish call waits for its answer, in milliseconds.
pub const FINISH_CALL_LIMIT_MS: u128 = 2000;

/// Where a call to the receiver stands after one more try.
#[derive(Clone, Copy, Debug, PartialEq, Eq, Structural)]
pub enum CallOutcome {
    /// No answer yet and time is left: send the call again.
    Again,
    /// The answer arrived in time.
    Answered,
    /// The time ran out; an answer that came on this very try does not count
    /// as in time.
    TimedOut,
}

/// Where a call stands after a try, `elapsed_ms` after it was first sent,
/// with `limit_ms` to wait: out of time past the limit, whether or not the
/// answer came; else answered when it came; else again.
pub open spec fn spec_call_outcome(received: bool, elapsed_ms: u128, limit_ms: u128) -> CallOutcome {
    if elapsed_ms > limit_ms {
        CallOutcome::TimedOut
    } else if received {
        CallOutcome::Answered
    } else {
        CallOutcome::Again
    }
}

/// Where a call stands after a try, as `spec_call_outcome` states it.
pub fn call_outcome(received: bool, elapsed_ms: u128, limit_ms: u128) -> (r: CallOutcome)
    ensures
        r == spec_call_outcome(received, elapsed_ms, limit_ms),
        r == CallOutcome::TimedOut <==> elapsed_ms > limit_ms,
        elapsed_ms <= limit_ms ==> (r == CallOutcome::Answered <==> received),
{
    if elapsed_ms > limit_ms {
        CallOutcome::TimedOut
    } else if received {
        CallOutcome::Answered
    } else {
        CallOutcome::Again
    }
}

/// A try is cut off only past the call's own limit: within it, the outcome is
/// the answer if it came and another try if not; past it, the call timed out.
pub proof fn lemma_call_limit(received: bool, elapsed_ms: u128, limit_ms: u128)
    ensures
        elapsed_ms <= limit_ms ==> spec_call_outcome(received, elapsed_ms, limit_ms) == (if received {
            CallOutcome::Answered
        } else {
            CallOutcome::Again
        }),
        elapsed_ms > limit_ms <==> spec_call_outcome(received, elapsed_ms, limit_ms)
            == CallOutcome::TimedOut,
{
}

/// The measuring loop's counters as a mathematical value.
pub struct ComputeView {
    pub total_packets: i128,
    pub partial_total_marker: i128,
    pub final_receiver_count: i128,
    pub partial_receiver_count: i128,
}

impl ComputeView {
    /// Every counter holds a packet count, so it lies in the range of `u64`.
    pub open spec fn wf(self) -> bool {
        &&& 0 <= self.total_packets <= u64::MAX
        &&& 0 <= self.partial_total_marker <= u64::MAX
        &&& 0 <= self.final_receiver_count <= u64::MAX
        &&& 0 <= self.partial_receiver_count <= u64::MAX
    }

    /// The sent count to report: the one taken with the last answer, or
    /// `global_count` if none was ever taken (or it was zero).
    pub open spec fn reported_total(self, global_count: u64) -> i128 {
        if self.total_packets == 0 {
            global_count as i128
        } else {
            self.total_packets
        }
    }

    /// The counters after a periodic report.
    pub open spec fn after_partial_report(self, global_count: u64) -> ComputeView {
        ComputeView {
            total_packets: self.reported_total(global_count),
            partial_total_marker: self.reported_total(global_count),
            ..self
        }
    }

    /// The packets sent since the previous report, as a periodic report says.
    pub open spec fn partial_total(self, global_count: u64) -> int {
        self.reported_total(global_count) - self.partial_total_marker
    }
}

/// The sent counts of consecutive periodic reports add up to the sent count
/// of the last of them, less the mark that the first started from.
pub proof fn lemma_partial_totals_add_up(v: ComputeView, g1: u64, g2: u64)
    ensures
        v.partial_total(g1) + v.after_partial_report(g1).partial_total(g2) == v.after_partial_report(
            g1,
        ).after_partial_report(g2).total_packets - v.partial_total_marker,
{
}

/// The measuring loop's counters: the sent count taken when the last answer
/// arrived, the sent count at the previous report, and the receiver's last
/// partial and final counts.
pub struct ComputeState {
    total_packets: i128,
    partial_total_marker: i128,
    final_receiver_count: i128,
    partial_receiver_count: i128,
}

impl View for ComputeState {
    type V = ComputeView;

    closed spec fn view(&self) -> ComputeView {
        ComputeView {
            total_packets: self.total_packets,
            partial_total_marker: self.partial_total_marker,
            final_receiver_count: self.final_receiver_count,
            partial_receiver_count: self.partial_receiver_count,
        }
    }
}

/// Whether `reply` is an answer of the given type from the distant machine.
pub open spec fn is_answer(reply: Option<BenchPayload>, payload_type: u8) -> bool {
    reply matches Some(p) && p.payload_type == payload_type
}

impl ComputeState {
    /// Counters at zero.
    pub fn new() -> (s: ComputeState)
        ensures
            s@ == (ComputeView {
                total_packets: 0,
                partial_total_marker: 0,
                final_receiver_count: 0,
                partial_receiver_count: 0,
            }),
            s@.wf(),
    {
        ComputeState {
            total_packets: 0,
            partial_total_marker: 0,
            final_receiver_count: 0,
            partial_receiver_count: 0,
        }
    }

    /// A packet arrived while an update call waits for its answer; `reply` is
    /// its payload when it came from the distant machine. The sent count is
    /// taken now (`global_count`); an update answer gives the receiver's
    /// partial count. Returns whether the answer arrived.
    pub fn on_update_reply(&mut self, global_count: u64, reply: Option<BenchPayload>) -> (received: bool)
        requires
            old(self)@.wf(),
        ensures
            final(self)@.wf(),
            received == is_answer(reply, 3),
            final(self)@.total_packets == global_count,
            final(self)@.partial_total_marker == old(self)@.partial_total_marker,
            final(self)@.final_receiver_count == old(self)@.final_receiver_count,
            final(self)@.partial_receiver_count == (if received {
                reply.unwrap().data as i128
            } else {
                old(self)@.partial_receiver_count
            }),
    {
        self.total_packets = global_count as i128;
        match reply {
            Some(p) => {
                if p.payload_type == 3 {
                    self.partial_receiver_count = p.data as i128;
                    true
                } else {
                    false
                }
            },
            None => false,
        }
    }

    /// A packet arrived while a finish call waits for its answer; `reply` is
    /// its payload when it came from the distant machine. The sent count is
    /// taken now (`global_count`); a finish answer gives the receiver's final
    /// count. Returns whether the answer arrived.
    pub fn on_finish_reply(&mut self, global_count: u64, reply: Option<BenchPayload>) -> (received: bool)
        requires
            old(self)@.wf(),
        ensures
            final(self)@.wf(),
            received == is_answer(reply, 5),
            final(self)@.total_packets == global_count,
            final(self)@.partial_total_marker == old(self)@.partial_total_marker,
            final(self)@.partial_receiver_count == old(self)@.partial_receiver_count,
            final(self)@.final_receiver_count == (if received {
                reply.unwrap().data as i128
            } else {
                old(self)@.final_receiver_count
            }),
    {
        self.total_packets = global_count as i128;
        match reply {
            Some(p) => {
                if p.payload_type == 5 {
                    self.final_receiver_count = p.data as i128;
                    true
                } else {
                    false
                }
            },
            None => false,
        }
    }

    /// The figures of a periodic report with packets of `packet_size` bytes:
    /// packets sent and received since the previous report, and the KiB
    /// received. The sent count becomes the mark of the next report.
    pub fn partial_report(&mut self, global_count: u64, packet_size: u16) -> (r: PartialReport)
        requires
            old(self)@.wf(),
        ensures
            final(self)@.wf(),
            final(self)@ == old(self)@.after_partial_report(global_count),
            r.partial_total_packets == old(self)@.partial_total(global_count),
            r.partial_receiver_count == old(self)@.partial_receiver_count,
            r.partial_amount_kib == old(self)@.partial_receiver_count * packet_size / 1024,
    {
        if self.total_packets == 0 {
            self.total_packets = global_count as i128;
        }
        let partial_total_packets = self.total_packets - self.partial_total_marker;
        self.partial_total_marker = self.total_packets;
        assert(0 <= self.partial_receiver_count * (packet_size as i128) <= 0xffff_ffff_ffff_ffff
            * 0xffff) by (nonlinear_arith)
            requires
                0 <= self.partial_receiver_count <= 0xffff_ffff_ffff_ffffi128,
                0 <= packet_size <= 0xffff,
        ;
        let partial_amount = self.partial_receiver_count * (packet_size as i128) / 1024;
        PartialReport {
            partial_amount_kib: partial_amount,
            partial_receiver_count: self.partial_receiver_count,
            partial_total_packets,
        }
    }

    /// The figures of the final report with packets of `packet_size` bytes:
    /// packets sent, packets received, and the whole MiB received.
    pub fn final_report(&mut self, global_count: u64, packet_size: u16) -> (r: FinalReport)
        requires
            old(self)@.wf(),
        ensures
            final(self)@.wf(),
            final(self)@.total_packets == old(self)@.reported_total(global_count),
            final(self)@.partial_total_marker == old(self)@.partial_total_marker,
            final(self)@.final_receiver_count == old(self)@.final_receiver_count,
            final(self)@.partial_receiver_count == old(self)@.partial_receiver_count,
            r.total_packets == final(self)@.total_packets,
            r.final_receiver_count == old(self)@.final_receiver_count,
            r.total_transmitted_mib == old(self)@.final_receiver_count * packet_size / 1024 / 1024,
    {
        if self.total_packets == 0 {
            self.total_packets = global_count as i128;
        }
        let count = self.final_receiver_count as u128;
        assert(0 <= count * (packet_size as u128) <= 0xffff_ffff_ffff_ffff * 0xffff) by (nonlinear_arith)
            requires
                0 <= count <= 0xffff_ffff_ffff_ffffu128,
                0 <= packet_size <= 0xffff,
        ;
        let transmitted = count * (packet_size as u128) / 1024 / 1024;
        FinalReport {
            total_packets: self.total_packets,
            final_receiver_count: self.final_receiver_count,
            total_transmitted_mib: transmitted,
        }
    }
}

} // verus!

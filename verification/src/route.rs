//! Route discovery: probes with a growing time to live, and the list of hops
//! that answered them.

use vstd::prelude::*;

verus! {

broadcast use vstd::array::group_array_axioms;

/// A hop of the route: the time to live of the probe it answered, and its
/// address.
#[derive(Clone, Copy, Debug)]
pub struct Hop {
    pub ttl: u32,
    pub addr: [u8; 4],
}

/// What the next probe carries.
#[derive(Clone, Copy, Debug, PartialEq, Eq, Structural)]
pub struct Probe {
    pub ttl: u32,
    pub sequence: u16,
}

/// The identifier that every probe carries.
pub const PROBE_IDENTIFIER: u16 = 1;

/// An ICMP message received while a probe awaits its answer, reduced to what
/// tells whether it answers the probe.
pub enum IcmpReply {
    /// Type 11: a datagram's time to live ran out on the way. `quoted` holds
    /// what the message quotes of that datagram: its IPv4 header and first
    /// bytes.
    TimeExceeded { code: u8, quoted: Vec<u8> },
    /// Type 0: an echo reply.
    EchoReply { identifier: u16, sequence: u16 },
    /// Any other message.
    Other,
}

/// The big-endian `u16` at offset `i` of `b`.
pub open spec fn be_u16_at(b: Seq<u8>, i: int) -> u16 {
    ((b[i] as int) * 256 + (b[i + 1] as int)) as u16
}

/// The identifier and sequence number of the echo request that `quoted`
/// starts with: an IPv4 header of at least five words whose protocol is ICMP
/// (1), followed by an ICMP message of type 8. `None` for anything else.
pub open spec fn spec_quoted_echo(quoted: Seq<u8>) -> Option<(u16, u16)> {
    if quoted.len() < 20 {
        None
    } else {
        let off = (quoted[0] % 16) as int * 4;
        if off >= 20 && off + 8 <= quoted.len() && quoted[9] == 1 && quoted[off] == 8 {
            Some((be_u16_at(quoted, off + 4), be_u16_at(quoted, off + 6)))
        } else {
            None
        }
    }
}

/// Whether `reply`, received from `src`, answers the probe numbered
/// `sequence` towards `dest`: a "time to live exceeded in transit" (code 0)
/// that quotes that very probe, or the destination's echo reply to it.
pub open spec fn answers_probe(reply: IcmpReply, src: [u8; 4], dest: [u8; 4], sequence: u16) -> bool {
    match reply {
        IcmpReply::TimeExceeded { code, quoted } => code == 0 && spec_quoted_echo(quoted@) == Some(
            (PROBE_IDENTIFIER, sequence),
        ),
        IcmpReply::EchoReply { identifier, sequence: s } => src == dest && identifier
            == PROBE_IDENTIFIER && s == sequence,
        IcmpReply::Other => false,
    }
}

/// The identifier and sequence number of the echo request that a
/// time-exceeded message quotes, as `spec_quoted_echo` states it.
pub fn quoted_echo(quoted: &[u8]) -> (r: Option<(u16, u16)>)
    ensures
        r == spec_quoted_echo(quoted@),
{
    if quoted.len() < 20 {
        return None;
    }
    let off: usize = (quoted[0] % 16) as usize * 4;
    if off >= 20 && off + 8 <= quoted.len() && quoted[9] == 1 && quoted[off] == 8 {
        let identifier: u16 = (quoted[off + 4] as u16) * 256 + (quoted[off + 5] as u16);
        let sequence: u16 = (quoted[off + 6] as u16) * 256 + (quoted[off + 7] as u16);
        Some((identifier, sequence))
    } else {
        None
    }
}

/// Whether the hops' times to live increase strictly and stay at most `ttl`.
pub open spec fn hops_ordered(hops: Seq<Hop>, ttl: u32) -> bool {
    &&& forall|i: int, j: int| 0 <= i < j < hops.len() ==> #[trigger] hops[i].ttl < #[trigger] hops[j].ttl
    &&& forall|i: int| 0 <= i < hops.len() ==> #[trigger] hops[i].ttl <= ttl
}

/// The route tracer as a mathematical value.
pub struct RouteView {
    pub sequence_counter: u16,
    pub ttl_counter: u32,
    pub src_ip: Seq<u8>,
    pub awaiting_reply: bool,
    pub given_up: bool,
    pub current: Seq<Hop>,
    pub last_route: Seq<Hop>,
}

impl RouteView {
    /// The hops found so far come in the order of their probes, a reply is
    /// only awaited after a probe, and the last route was recorded in order.
    pub open spec fn wf(self) -> bool {
        &&& hops_ordered(self.current, self.ttl_counter)
        &&& self.awaiting_reply ==> forall|i: int|
            0 <= i < self.current.len() ==> #[trigger] self.current[i].ttl < self.ttl_counter
        &&& forall|i: int, j: int|
            0 <= i < j < self.last_route.len() ==> #[trigger] self.last_route[i].ttl
                < #[trigger] self.last_route[j].ttl
    }
}

/// The state of route discovery: probe counters, the address of the last hop
/// that answered, the hops found in the current round and the last complete
/// route.
pub struct RouteTracer {
    sequence_counter: u16,
    ttl_counter: u32,
    src_ip: [u8; 4],
    awaiting_reply: bool,
    given_up: bool,
    addr_vec: Vec<Hop>,
    final_vec: Vec<Hop>,
}

impl View for RouteTracer {
    type V = RouteView;

    closed spec fn view(&self) -> RouteView {
        RouteView {
            sequence_counter: self.sequence_counter,
            ttl_counter: self.ttl_counter,
            src_ip: self.src_ip@,
            awaiting_reply: self.awaiting_reply,
            given_up: self.given_up,
            current: self.addr_vec@,
            last_route: self.final_vec@,
        }
    }
}

impl RouteTracer {
    /// Nothing probed yet; the last hop is 0.0.0.0.
    pub fn new() -> (t: RouteTracer)
        ensures
            t@ == (RouteView {
                sequence_counter: 0,
                ttl_counter: 0,
                src_ip: seq![0u8, 0u8, 0u8, 0u8],
                awaiting_reply: false,
                given_up: false,
                current: Seq::empty(),
                last_route: Seq::empty(),
            }),
            t@.wf(),
    {
        let t = RouteTracer {
            sequence_counter: 0,
            ttl_counter: 0,
            src_ip: [0u8; 4],
            awaiting_reply: false,
            given_up: false,
            addr_vec: Vec::new(),
            final_vec: Vec::new(),
        };
        assert(t.src_ip@ =~= seq![0u8, 0u8, 0u8, 0u8]);
        t
    }

    /// Whether the last hop that answered is the destination.
    pub fn reached(&self, dest: [u8; 4]) -> (r: bool)
        ensures
            r == (self@.src_ip == dest@),
    {
        let r = self.src_ip[0] == dest[0] && self.src_ip[1] == dest[1] && self.src_ip[2] == dest[2]
            && self.src_ip[3] == dest[3];
        proof {
            if r {
                assert(self.src_ip@ =~= dest@);
            }
        }
        r
    }

    /// Whether the current round still looks for the route: the destination
    /// has not answered yet and no probe went unanswered.
    pub fn searching(&self, dest: [u8; 4]) -> (r: bool)
        ensures
            r == (!self@.given_up && self@.src_ip != dest@),
    {
        !self.given_up && !self.reached(dest)
    }

    /// The current probe got no answer in time: the round stops looking, and
    /// its hops wait for the next report.
    pub fn give_up(&mut self)
        requires
            old(self)@.wf(),
        ensures
            final(self)@.wf(),
            final(self)@ == (RouteView { awaiting_reply: false, given_up: true, ..old(self)@ }),
    {
        self.awaiting_reply = false;
        self.given_up = true;
    }

    /// Whether another probe can be numbered without overflow.
    pub fn can_probe(&self) -> (r: bool)
        ensures
            r == (self@.ttl_counter < u32::MAX && self@.sequence_counter < u16::MAX),
    {
        self.ttl_counter < u32::MAX && self.sequence_counter < u16::MAX
    }

    /// The next probe: one more hop of time to live, the next sequence number.
    pub fn next_probe(&mut self) -> (p: Probe)
        requires
            old(self)@.wf(),
            old(self)@.ttl_counter < u32::MAX,
            old(self)@.sequence_counter < u16::MAX,
        ensures
            final(self)@.wf(),
            p == (Probe {
                ttl: (old(self)@.ttl_counter + 1) as u32,
                sequence: (old(self)@.sequence_counter + 1) as u16,
            }),
            final(self)@ == (RouteView {
                ttl_counter: p.ttl,
                sequence_counter: p.sequence,
                awaiting_reply: true,
                ..old(self)@
            }),
    {
        self.ttl_counter = self.ttl_counter + 1;
        self.sequence_counter = self.sequence_counter + 1;
        self.awaiting_reply = true;
        Probe { ttl: self.ttl_counter, sequence: self.sequence_counter }
    }

    /// A message `reply` came from `src` while the current probe towards
    /// `dest` awaits its answer. When it answers that probe (see
    /// `answers_probe`), `src` becomes the last hop, recorded with the probe's
    /// time to live, and the result is `true`; any other message changes
    /// nothing and gives `false`.
    pub fn on_reply(&mut self, src: [u8; 4], dest: [u8; 4], reply: &IcmpReply) -> (hop: bool)
        requires
            old(self)@.wf(),
            old(self)@.awaiting_reply,
        ensures
            final(self)@.wf(),
            hop == answers_probe(*reply, src, dest, old(self)@.sequence_counter),
            final(self)@ == (if hop {
                RouteView {
                    src_ip: src@,
                    awaiting_reply: false,
                    current: old(self)@.current.push(Hop { ttl: old(self)@.ttl_counter, addr: src }),
                    ..old(self)@
                }
            } else {
                old(self)@
            }),
    {
        let hop = match reply {
            IcmpReply::TimeExceeded { code, quoted } => *code == 0 && match quoted_echo(quoted.as_slice()) {
                Some((identifier, sequence)) => identifier == PROBE_IDENTIFIER && sequence
                    == self.sequence_counter,
                None => false,
            },
            IcmpReply::EchoReply { identifier, sequence } => {
                let same = src[0] == dest[0] && src[1] == dest[1] && src[2] == dest[2] && src[3]
                    == dest[3];
                proof {
                    if same {
                        assert(src@ =~= dest@);
                        assert(src == dest);
                    } else {
                        assert(src@ != dest@ ==> src != dest);
                    }
                }
                same && *identifier == PROBE_IDENTIFIER && *sequence == self.sequence_counter
            },
            IcmpReply::Other => false,
        };
        if hop {
            self.src_ip = src;
            self.awaiting_reply = false;
            self.addr_vec.push(Hop { ttl: self.ttl_counter, addr: src });
        }
        hop
    }

    /// The round is over: its hops become the last route, and the next round
    /// starts from time to live 0 with no hop and 0.0.0.0 as last hop, looking
    /// for the route again.
    pub fn publish(&mut self)
        requires
            old(self)@.wf(),
        ensures
            final(self)@.wf(),
            final(self)@ == (RouteView {
                src_ip: seq![0u8, 0u8, 0u8, 0u8],
                ttl_counter: 0,
                awaiting_reply: false,
                given_up: false,
                current: Seq::empty(),
                last_route: old(self)@.current,
                ..old(self)@
            }),
    {
        self.src_ip = [0u8; 4];
        assert(self.src_ip@ =~= seq![0u8, 0u8, 0u8, 0u8]);
        std::mem::swap(&mut self.final_vec, &mut self.addr_vec);
        self.addr_vec.clear();
        self.ttl_counter = 0;
        self.awaiting_reply = false;
        self.given_up = false;
    }

    /// The hops found in the current round.
    pub fn current_route(&self) -> (r: &[Hop])
        ensures
            r@ == self@.current,
    {
        self.addr_vec.as_slice()
    }

    /// The last complete route.
    pub fn last_route(&self) -> (r: &[Hop])
        ensures
            r@ == self@.last_route,
    {
        self.final_vec.as_slice()
    }
}

} // verus!

//! Round-trip time statistics: the mean over the whole run and the mean since
//! the last periodic report, kept as sums and counts of the samples.

use vstd::prelude::*;

verus! {

/// The sum of the samples.
pub open spec fn sum_of(s: Seq<int>) -> int
    decreases s.len(),
{
    if s.len() == 0 {
        0
    } else {
        sum_of(s.drop_last()) + s.last()
    }
}

/// The mean of the samples rounded down, 0 when there is none.
pub open spec fn mean_of(s: Seq<int>) -> int {
    if s.len() == 0 {
        0
    } else {
        sum_of(s) / (s.len() as int)
    }
}

/// The round-trip times (milliseconds) received over the run, and those
/// received since the last periodic report.
pub struct PingView {
    pub samples: Seq<int>,
    pub partial_samples: Seq<int>,
}

impl PingView {
    /// No sample is negative, and the samples since the last report are the
    /// latest samples of the run.
    pub open spec fn wf(self) -> bool {
        &&& forall|i: int| 0 <= i < self.samples.len() ==> 0 <= #[trigger] self.samples[i]
        &&& self.partial_samples.len() <= self.samples.len()
        &&& self.partial_samples =~= self.samples.subrange(
            self.samples.len() - self.partial_samples.len(),
            self.samples.len() as int,
        )
    }

    /// Whether one more sample `rtt` is not negative and the sums and counts
    /// stay within `i128`.
    pub open spec fn can_take(self, rtt: i128) -> bool {
        &&& 0 <= rtt
        &&& sum_of(self.samples) + rtt <= i128::MAX
        &&& self.samples.len() + 1 <= i128::MAX
    }
}

/// Round-trip time statistics over the run and since the last periodic
/// report.
pub struct PingStats {
    total_rtt: i128,
    ping_number: i128,
    partial_total_rtt: i128,
    partial_ping_number: i128,
    samples: Ghost<Seq<int>>,
    partial_samples: Ghost<Seq<int>>,
}

impl View for PingStats {
    type V = PingView;

    closed spec fn view(&self) -> PingView {
        PingView { samples: self.samples@, partial_samples: self.partial_samples@ }
    }
}

/// Samples that are not negative have a sum that is not negative.
proof fn lemma_sum_nonneg(s: Seq<int>)
    requires
        forall|i: int| 0 <= i < s.len() ==> 0 <= #[trigger] s[i],
    ensures
        0 <= sum_of(s),
    decreases s.len(),
{
    if s.len() > 0 {
        lemma_sum_nonneg(s.drop_last());
    }
}

/// The sum of a suffix of non-negative samples is at most the whole sum.
proof fn lemma_suffix_sum_le(s: Seq<int>, k: int)
    requires
        0 <= k <= s.len(),
        forall|i: int| 0 <= i < s.len() ==> 0 <= #[trigger] s[i],
    ensures
        sum_of(s.subrange(s.len() - k, s.len() as int)) <= sum_of(s),
    decreases s.len(),
{
    if k == 0 {
        lemma_sum_nonneg(s);
        assert(s.subrange(s.len() - k, s.len() as int) =~= Seq::<int>::empty());
    } else if k == s.len() {
        assert(s.subrange(0, s.len() as int) =~= s);
    } else {
        let t = s.drop_last();
        lemma_suffix_sum_le(t, k - 1);
        let sub = s.subrange(s.len() - k, s.len() as int);
        assert(sub.drop_last() =~= t.subrange(t.len() - (k - 1), t.len() as int));
    }
}

impl PingStats {
    /// The sums and counts are those of the samples.
    pub closed spec fn wf(&self) -> bool {
        &&& self@.wf()
        &&& self.total_rtt == sum_of(self.samples@)
        &&& self.ping_number == self.samples@.len()
        &&& self.partial_total_rtt == sum_of(self.partial_samples@)
        &&& self.partial_ping_number == self.partial_samples@.len()
    }

    /// No ping yet.
    pub fn new() -> (s: PingStats)
        ensures
            s.wf(),
            s@.samples == Seq::<int>::empty(),
            s@.partial_samples == Seq::<int>::empty(),
    {
        PingStats {
            total_rtt: 0,
            ping_number: 0,
            partial_total_rtt: 0,
            partial_ping_number: 0,
            samples: Ghost(Seq::empty()),
            partial_samples: Ghost(Seq::empty()),
        }
    }

    /// Whether one more sample `rtt` is not negative and the sums and counts
    /// stay within `i128`.
    pub fn can_take(&self, rtt: i128) -> (r: bool)
        requires
            self.wf(),
        ensures
            r == self@.can_take(rtt),
    {
        rtt >= 0 && self.total_rtt.checked_add(rtt).is_some() && self.ping_number < i128::MAX
    }

    /// Takes in one more round-trip time (milliseconds), over the run and
    /// since the last report.
    pub fn on_rtt(&mut self, rtt: i128)
        requires
            old(self).wf(),
            old(self)@.can_take(rtt),
        ensures
            final(self).wf(),
            final(self)@ == (PingView {
                samples: old(self)@.samples.push(rtt as int),
                partial_samples: old(self)@.partial_samples.push(rtt as int),
            }),
    {
        proof {
            let s = self.samples@;
            lemma_suffix_sum_le(s, self.partial_samples@.len() as int);
            lemma_sum_nonneg(self.partial_samples@);
            assert(s.push(rtt as int).drop_last() =~= s);
            assert(self.partial_samples@.push(rtt as int).drop_last() =~= self.partial_samples@);
        }
        self.total_rtt = self.total_rtt + rtt;
        self.ping_number = self.ping_number + 1;
        self.partial_total_rtt = self.partial_total_rtt + rtt;
        self.partial_ping_number = self.partial_ping_number + 1;
        self.samples = Ghost(self.samples@.push(rtt as int));
        self.partial_samples = Ghost(self.partial_samples@.push(rtt as int));
        proof {
            let s = self.samples@;
            let p = self.partial_samples@;
            assert(p =~= s.subrange(s.len() - p.len(), s.len() as int));
        }
    }

    /// The mean round-trip time since the last periodic report and the number
    /// of pings behind it; the next report starts from no sample.
    pub fn take_partial(&mut self) -> (r: (i128, i128))
        requires
            old(self).wf(),
        ensures
            final(self).wf(),
            r.0 == mean_of(old(self)@.partial_samples),
            r.1 == old(self)@.partial_samples.len(),
            final(self)@ == (PingView { partial_samples: Seq::<int>::empty(), ..old(self)@ }),
    {
        proof {
            lemma_sum_nonneg(self.partial_samples@);
        }
        let mean = if self.partial_ping_number == 0 {
            0
        } else {
            self.partial_total_rtt / self.partial_ping_number
        };
        let r = (mean, self.partial_ping_number);
        self.partial_total_rtt = 0;
        self.partial_ping_number = 0;
        self.partial_samples = Ghost(Seq::empty());
        proof {
            let s = self.samples@;
            assert(s.subrange(s.len() as int, s.len() as int) =~= Seq::<int>::empty());
        }
        r
    }

    /// The mean round-trip time over the run, 0 before the first ping.
    pub fn average_rtt(&self) -> (r: i128)
        requires
            self.wf(),
        ensures
            r == mean_of(self@.samples),
    {
        proof {
            lemma_sum_nonneg(self.samples@);
        }
        if self.ping_number == 0 {
            0
        } else {
            self.total_rtt / self.ping_number
        }
    }

    /// The number of pings over the run.
    pub fn ping_number(&self) -> (r: i128)
        requires
            self.wf(),
        ensures
            r == self@.samples.len(),
    {
        self.ping_number
    }
}

/// The mean of samples that all lie between zero and a bound lies between
/// them too.
pub proof fn lemma_mean_bounded(s: Seq<int>, bound: int)
    requires
        0 <= bound,
        forall|i: int| 0 <= i < s.len() ==> 0 <= #[trigger] s[i] <= bound,
    ensures
        0 <= mean_of(s) <= bound,
{
    if s.len() > 0 {
        lemma_sum_bounded(s, bound);
        lemma_sum_nonneg(s);
        let n = s.len() as int;
        let t = sum_of(s);
        assert(t / n <= (n * bound) / n) by (nonlinear_arith)
            requires
                0 < n,
                t <= n * bound,
        ;
        assert((n * bound) / n == bound) by (nonlinear_arith)
            requires
                0 < n,
        ;
        assert(0 <= t / n) by (nonlinear_arith)
            requires
                0 < n,
                0 <= t,
        ;
    }
}

/// The sum of samples that are each at most a bound is at most the number of
/// samples times that bound.
proof fn lemma_sum_bounded(s: Seq<int>, bound: int)
    requires
        forall|i: int| 0 <= i < s.len() ==> #[trigger] s[i] <= bound,
    ensures
        sum_of(s) <= s.len() * bound,
    decreases s.len(),
{
    if s.len() > 0 {
        lemma_sum_bounded(s.drop_last(), bound);
        let n = s.len() as int;
        assert((n - 1) * bound + bound == n * bound) by (nonlinear_arith);
    }
}

/// Pings that all take the same time have that time as their mean.
pub proof fn lemma_mean_of_equal_samples(s: Seq<int>, rtt: int)
    requires
        s.len() > 0,
        forall|i: int| 0 <= i < s.len() ==> #[trigger] s[i] == rtt,
    ensures
        mean_of(s) == rtt,
{
    lemma_sum_of_equal(s, rtt);
    let n = s.len() as int;
    assert((n * rtt) / n == rtt) by (nonlinear_arith)
        requires
            0 < n,
    ;
}

/// Samples that all equal `rtt` sum to their number times `rtt`.
proof fn lemma_sum_of_equal(s: Seq<int>, rtt: int)
    requires
        forall|i: int| 0 <= i < s.len() ==> #[trigger] s[i] == rtt,
    ensures
        sum_of(s) == s.len() * rtt,
    decreases s.len(),
{
    if s.len() > 0 {
        lemma_sum_of_equal(s.drop_last(), rtt);
        let n = s.len() as int;
        assert((n - 1) * rtt + rtt == n * rtt) by (nonlinear_arith);
    }
}

} // verus!

//! Gauges: a rolling-window gauge whose reported value is the average of the
//! most recent samples, and a rate gauge that tracks a success ratio.
//!
//! Samples are integers (the engine feeds it elapsed milliseconds). A gauge
//! reports its value as a (numerator, divisor) pair so that the division —
//! whatever precision a caller wants for it — stays outside the engine.

use vstd::prelude::*;

use crate::metrics::Metric;

verus! {

/// Sum of a sequence of samples.
pub open spec fn sum_of(s: Seq<u64>) -> int
    decreases s.len(),
{
    if s.len() == 0 {
        0
    } else {
        sum_of(s.drop_last()) + s.last()
    }
}

/// A metric that can go up and down, arbitrarily, over time. It keeps the
/// most recent `capacity` samples; its reported value is their average,
/// given as the pair (sum, number of samples).
pub struct Gauge {
    values: Vec<u64>,
    sum: u64,
    capacity: usize,
}

impl Gauge {
    /// The samples currently inside the window, oldest first.
    pub closed spec fn samples(self) -> Seq<u64> {
        self.values@
    }

    pub closed spec fn spec_capacity(self) -> nat {
        self.capacity as nat
    }

    /// The cached sum equals the sum of the retained samples, and the window
    /// never holds more than `capacity` of them.
    pub closed spec fn wf(self) -> bool {
        &&& self.sum == sum_of(self.values@)
        &&& self.values@.len() <= self.capacity
    }

    pub fn new(capacity: usize) -> (r: Gauge)
        ensures
            r.wf(),
            r.samples() == Seq::<u64>::empty(),
            r.spec_capacity() == capacity,
    {
        let values: Vec<u64> = Vec::new();
        assert(values@ =~= Seq::<u64>::empty());
        Gauge { values, sum: 0, capacity }
    }

    /// Records one sample. When the window is full the oldest sample leaves.
    pub fn set(&mut self, value: u64)
        requires
            old(self).wf(),
            sum_of(old(self).samples()) + value <= u64::MAX,
        ensures
            final(self).wf(),
            final(self).spec_capacity() == old(self).spec_capacity(),
            final(self).samples() == if old(self).samples().len() < old(self).spec_capacity() {
                old(self).samples().push(value)
            } else {
                old(self).samples().push(value).skip(1)
            },
    {
        proof {
            lemma_sum_of_push(self.values@, value);
        }
        self.values.push(value);
        self.sum = self.sum + value;
        if self.values.len() > self.capacity {
            proof {
                lemma_sum_of_skip1(self.values@);
                lemma_sum_of_nonneg(self.values@.skip(1));
            }
            let ghost pushed = self.values@;
            let evicted = self.values.remove(0);
            proof {
                assert(self.values@ =~= pushed.skip(1));
            }
            self.sum = self.sum - evicted;
        }
    }
}

impl Metric for Gauge {
    type T = (u64, u64);

    open spec fn inv(&self) -> bool {
        self.wf()
    }

    /// The rolling value as (sum of samples, number of samples): the reported
    /// average is their quotient, or the bare sum when the window is empty.
    open spec fn spec_value(&self) -> (u64, u64) {
        (self.sum_of_samples(), self.samples().len() as u64)
    }

    fn value(&self) -> (r: (u64, u64)) {
        (self.sum, self.values.len() as u64)
    }
}

impl Gauge {
    pub closed spec fn sum_of_samples(self) -> u64 {
        self.sum
    }
}

proof fn lemma_sum_of_push(s: Seq<u64>, v: u64)
    ensures
        sum_of(s.push(v)) == sum_of(s) + v,
{
    assert(s.push(v).drop_last() =~= s);
}

proof fn lemma_sum_of_skip1(s: Seq<u64>)
    requires
        s.len() >= 1,
    ensures
        sum_of(s.skip(1)) == sum_of(s) - s[0],
    decreases s.len(),
{
    if s.len() == 1 {
        assert(s.skip(1) =~= Seq::<u64>::empty());
        assert(s.drop_last() =~= Seq::<u64>::empty());
        assert(sum_of(s) == sum_of(s.drop_last()) + s.last());
        assert(s.last() == s[0]);
    } else {
        lemma_sum_of_skip1(s.drop_last());
        assert(s.skip(1).drop_last() =~= s.drop_last().skip(1));
        assert(s.skip(1).last() == s.last());
        assert(s.drop_last()[0] == s[0]);
        assert(sum_of(s.skip(1)) == sum_of(s.skip(1).drop_last()) + s.skip(1).last());
        assert(sum_of(s) == sum_of(s.drop_last()) + s.last());
    }
}

proof fn lemma_sum_of_nonneg(s: Seq<u64>)
    ensures
        sum_of(s) >= 0,
    decreases s.len(),
{
    if s.len() > 0 {
        lemma_sum_of_nonneg(s.drop_last());
    }
}

/// The rolling value of a gauge holding no more samples than its capacity is
/// the arithmetic mean of exactly the retained samples: the reported pair is
/// (sum of all retained samples, their count).
pub proof fn lemma_gauge_rolling_mean(g: Gauge)
    requires
        g.wf(),
    ensures
        g.spec_value().0 == sum_of(g.samples()),
        g.spec_value().1 == g.samples().len(),
        g.samples().len() <= g.spec_capacity(),
{
}

/// A metric that tracks a success rate: its reported value is
/// successes / (successes + failures), given as that pair.
pub struct RateGauge {
    success: u64,
    fail: u64,
}

impl RateGauge {
    pub closed spec fn spec_success(self) -> u64 {
        self.success
    }

    pub closed spec fn spec_fail(self) -> u64 {
        self.fail
    }

    pub fn new() -> (r: RateGauge)
        ensures
            r.spec_success() == 0,
            r.spec_fail() == 0,
    {
        RateGauge { success: 0, fail: 0 }
    }

    /// Records one success.
    pub fn increment(&mut self)
        requires
            old(self).spec_success() < u64::MAX,
        ensures
            final(self).spec_success() == old(self).spec_success() + 1,
            final(self).spec_fail() == old(self).spec_fail(),
    {
        self.success = self.success + 1;
    }

    /// Records one failure.
    pub fn decrement(&mut self)
        requires
            old(self).spec_fail() < u64::MAX,
        ensures
            final(self).spec_fail() == old(self).spec_fail() + 1,
            final(self).spec_success() == old(self).spec_success(),
    {
        self.fail = self.fail + 1;
    }
}

impl RateGauge {
    /// The raw tallies: (successes, failures).
    pub fn counts(&self) -> (r: (u64, u64))
        ensures
            r.0 == self.spec_success(),
            r.1 == self.spec_fail(),
    {
        (self.success, self.fail)
    }
}

impl Metric for RateGauge {
    type T = (u64, u64);

    open spec fn inv(&self) -> bool {
        self.spec_success() + self.spec_fail() <= u64::MAX
    }

    /// The success rate as (successes, total tries): the reported rate is
    /// their quotient, or zero when nothing was tried yet.
    open spec fn spec_value(&self) -> (u64, u64) {
        (self.spec_success(), (self.spec_success() + self.spec_fail()) as u64)
    }

    fn value(&self) -> (r: (u64, u64)) {
        (self.success, self.success + self.fail)
    }
}

impl Default for Gauge {
    /// The default rolling window keeps 100 samples.
    fn default() -> (r: Gauge)
        ensures
            r.wf(),
            r.samples() == Seq::<u64>::empty(),
            r.spec_capacity() == 100,
    {
        Gauge::new(100)
    }
}

impl Default for RateGauge {
    fn default() -> (r: RateGauge)
        ensures
            r.spec_success() == 0,
            r.spec_fail() == 0,
    {
        RateGauge::new()
    }
}

} // verus!

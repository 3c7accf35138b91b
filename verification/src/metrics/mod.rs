//! Counters, gauges and rates kept by the engine while it serves
//! authorization requests.

pub mod counter;
pub mod gauge;

pub use counter::Counter;
pub use gauge::Gauge;
pub use gauge::RateGauge;

use vstd::prelude::*;

verus! {

/// A metric reports a current value; `spec_value` is what that value means.
pub trait Metric {
    type T;

    spec fn inv(&self) -> bool;

    spec fn spec_value(&self) -> Self::T;

    fn value(&self) -> (r: Self::T)
        requires
            self.inv(),
        ensures
            r == self.spec_value(),
    ;
}

#[derive(Clone, Copy, PartialEq, Eq, Structural)]
pub enum MetricCounter {
    TotalAuthzRequests,
    TotalJwtsValidated,
}

#[derive(Clone, Copy, PartialEq, Eq, Structural)]
pub enum MetricGauge {
    AvgDecisionMs,
}

#[derive(Clone, Copy, PartialEq, Eq, Structural)]
pub enum MetricRate {
    AuthzAllowRate,
    ValidJwtRate,
}

/// The set of metrics the engine maintains: two request counters, a rolling
/// average of decision time, and two success-rate gauges.
pub struct Meter {
    total_authz_requests: Counter,
    total_jwts_validated: Counter,
    avg_decision_ms: Gauge,
    authz_allow_rate: RateGauge,
    valid_jwt_rate: RateGauge,
}

impl Meter {
    pub closed spec fn counter(self, metric: MetricCounter) -> u64 {
        match metric {
            MetricCounter::TotalAuthzRequests => self.total_authz_requests.spec_value(),
            MetricCounter::TotalJwtsValidated => self.total_jwts_validated.spec_value(),
        }
    }

    pub closed spec fn gauge(self, metric: MetricGauge) -> Gauge {
        match metric {
            MetricGauge::AvgDecisionMs => self.avg_decision_ms,
        }
    }

    pub closed spec fn rate(self, metric: MetricRate) -> RateGauge {
        match metric {
            MetricRate::AuthzAllowRate => self.authz_allow_rate,
            MetricRate::ValidJwtRate => self.valid_jwt_rate,
        }
    }

    pub closed spec fn wf(self) -> bool {
        self.avg_decision_ms.wf()
    }

    pub fn new() -> (r: Meter)
        ensures
            r.wf(),
            forall|m: MetricCounter| r.counter(m) == 0,
            forall|m: MetricGauge| (#[trigger] r.gauge(m)).samples() == Seq::<u64>::empty(),
            forall|m: MetricGauge| (#[trigger] r.gauge(m)).spec_capacity() == 100,
            forall|m: MetricRate|
                (#[trigger] r.rate(m)).spec_success() == 0 && r.rate(m).spec_fail() == 0,
    {
        Meter {
            total_authz_requests: Counter::new(),
            total_jwts_validated: Counter::new(),
            avg_decision_ms: Gauge::default(),
            authz_allow_rate: RateGauge::new(),
            valid_jwt_rate: RateGauge::new(),
        }
    }

    pub fn increment_counter(&mut self, metric: MetricCounter)
        requires
            old(self).wf(),
            old(self).counter(metric) < u64::MAX,
        ensures
            final(self).wf(),
            final(self).counter(metric) == old(self).counter(metric) + 1,
            forall|m: MetricCounter|
                m != metric ==> #[trigger] final(self).counter(m) == old(self).counter(m),
            forall|m: MetricGauge| #[trigger] final(self).gauge(m) == old(self).gauge(m),
            forall|m: MetricRate| #[trigger] final(self).rate(m) == old(self).rate(m),
    {
        match metric {
            MetricCounter::TotalAuthzRequests => self.total_authz_requests.increment(),
            MetricCounter::TotalJwtsValidated => self.total_jwts_validated.increment(),
        }
    }

    /// Sets the value of the given counter. Counters can only go up.
    pub fn set_counter(&mut self, metric: MetricCounter, value: u64)
        requires
            old(self).wf(),
        ensures
            final(self).wf(),
            final(self).counter(metric) == if value > old(self).counter(metric) {
                value
            } else {
                old(self).counter(metric)
            },
            forall|m: MetricCounter|
                m != metric ==> #[trigger] final(self).counter(m) == old(self).counter(m),
            forall|m: MetricGauge| #[trigger] final(self).gauge(m) == old(self).gauge(m),
            forall|m: MetricRate| #[trigger] final(self).rate(m) == old(self).rate(m),
    {
        match metric {
            MetricCounter::TotalAuthzRequests => self.total_authz_requests.set(value),
            MetricCounter::TotalJwtsValidated => self.total_jwts_validated.set(value),
        }
    }

    pub fn set_gauge(&mut self, metric: MetricGauge, value: u64)
        requires
            old(self).wf(),
            gauge::sum_of(old(self).gauge(metric).samples()) + value <= u64::MAX,
        ensures
            final(self).wf(),
            final(self).gauge(metric).samples() == if old(self).gauge(metric).samples().len()
                < old(self).gauge(metric).spec_capacity() {
                old(self).gauge(metric).samples().push(value)
            } else {
                old(self).gauge(metric).samples().push(value).skip(1)
            },
            final(self).gauge(metric).spec_capacity() == old(self).gauge(metric).spec_capacity(),
            forall|m: MetricCounter| #[trigger] final(self).counter(m) == old(self).counter(m),
            forall|m: MetricRate| #[trigger] final(self).rate(m) == old(self).rate(m),
    {
        match metric {
            MetricGauge::AvgDecisionMs => self.avg_decision_ms.set(value),
        }
    }

    pub fn increment_rate(&mut self, metric: MetricRate)
        requires
            old(self).wf(),
            old(self).rate(metric).spec_success() < u64::MAX,
        ensures
            final(self).wf(),
            final(self).rate(metric).spec_success() == old(self).rate(metric).spec_success() + 1,
            final(self).rate(metric).spec_fail() == old(self).rate(metric).spec_fail(),
            forall|m: MetricRate|
                m != metric ==> #[trigger] final(self).rate(m) == old(self).rate(m),
            forall|m: MetricCounter| #[trigger] final(self).counter(m) == old(self).counter(m),
            forall|m: MetricGauge| #[trigger] final(self).gauge(m) == old(self).gauge(m),
    {
        match metric {
            MetricRate::AuthzAllowRate => self.authz_allow_rate.increment(),
            MetricRate::ValidJwtRate => self.valid_jwt_rate.increment(),
        }
    }

    pub fn decrement_rate(&mut self, metric: MetricRate)
        requires
            old(self).wf(),
            old(self).rate(metric).spec_fail() < u64::MAX,
        ensures
            final(self).wf(),
            final(self).rate(metric).spec_fail() == old(self).rate(metric).spec_fail() + 1,
            final(self).rate(metric).spec_success() == old(self).rate(metric).spec_success(),
            forall|m: MetricRate|
                m != metric ==> #[trigger] final(self).rate(m) == old(self).rate(m),
            forall|m: MetricCounter| #[trigger] final(self).counter(m) == old(self).counter(m),
            forall|m: MetricGauge| #[trigger] final(self).gauge(m) == old(self).gauge(m),
    {
        match metric {
            MetricRate::AuthzAllowRate => self.authz_allow_rate.decrement(),
            MetricRate::ValidJwtRate => self.valid_jwt_rate.decrement(),
        }
    }

    pub fn counter_value(&self, metric: MetricCounter) -> (r: u64)
        ensures
            r == self.counter(metric),
    {
        match metric {
            MetricCounter::TotalAuthzRequests => self.total_authz_requests.value(),
            MetricCounter::TotalJwtsValidated => self.total_jwts_validated.value(),
        }
    }

    /// The rolling value of the given gauge, as (sum of samples, sample count).
    pub fn gauge_value(&self, metric: MetricGauge) -> (r: (u64, u64))
        requires
            self.wf(),
        ensures
            r == self.gauge(metric).spec_value(),
    {
        match metric {
            MetricGauge::AvgDecisionMs => self.avg_decision_ms.value(),
        }
    }

    /// The given rate's raw tallies, as (successes, failures).
    pub fn rate_value(&self, metric: MetricRate) -> (r: (u64, u64))
        ensures
            r.0 == self.rate(metric).spec_success(),
            r.1 == self.rate(metric).spec_fail(),
    {
        match metric {
            MetricRate::AuthzAllowRate => self.authz_allow_rate.counts(),
            MetricRate::ValidJwtRate => self.valid_jwt_rate.counts(),
        }
    }
}

impl Default for Meter {
    fn default() -> (r: Meter)
        ensures
            r.wf(),
            forall|m: MetricCounter| r.counter(m) == 0,
            forall|m: MetricGauge| (#[trigger] r.gauge(m)).samples() == Seq::<u64>::empty(),
            forall|m: MetricGauge| (#[trigger] r.gauge(m)).spec_capacity() == 100,
            forall|m: MetricRate|
                (#[trigger] r.rate(m)).spec_success() == 0 && r.rate(m).spec_fail() == 0,
    {
        Meter::new()
    }
}

/// Inside a well-formed meter, a gauge's reported pair is the sum and count
/// of exactly its retained samples.
pub proof fn lemma_meter_gauge_sum(m: Meter, metric: MetricGauge)
    requires
        m.wf(),
    ensures
        m.gauge(metric).spec_value().0 == gauge::sum_of(m.gauge(metric).samples()),
        m.gauge(metric).spec_value().1 == m.gauge(metric).samples().len(),
{
    gauge::lemma_gauge_rolling_mean(m.gauge(metric));
}

/// Meter counters are monotonically non-decreasing: raising a counter, by
/// `increment` or by `set`, never lowers any counter's value.
pub proof fn lemma_counter_monotonic(before: Meter, after: Meter, metric: MetricCounter, value: u64)
    requires
        after.counter(metric) == if value > before.counter(metric) {
            value
        } else {
            before.counter(metric)
        },
        forall|m: MetricCounter| m != metric ==> #[trigger] after.counter(m) == before.counter(m),
    ensures
        forall|m: MetricCounter| #[trigger] after.counter(m) >= before.counter(m),
{
}

} // verus!

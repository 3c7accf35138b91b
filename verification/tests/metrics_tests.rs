use cedarling_pdp::metrics::Counter;
use cedarling_pdp::metrics::Gauge;
use cedarling_pdp::metrics::Meter;
use cedarling_pdp::metrics::Metric;
use cedarling_pdp::metrics::MetricCounter;
use cedarling_pdp::metrics::MetricGauge;
use cedarling_pdp::metrics::MetricRate;
use cedarling_pdp::metrics::RateGauge;

fn gauge_value(g: &Gauge) -> f64 {
    let (sum, count) = g.value();
    if count == 0 {
        sum as f64
    } else {
        sum as f64 / count as f64
    }
}

fn rate_value(g: &RateGauge) -> f64 {
    let (success, fail) = g.counts();
    let total = success + fail;
    if total == 0 {
        return 0.0;
    }
    success as f64 / total as f64
}

#[test]
pub fn test_gauge_rolling_value() {
    let mut gauge = Gauge::new(3);
    assert_eq!(gauge_value(&gauge), 0.0);
    gauge.set(1);
    assert_eq!(gauge_value(&gauge), 1.0);
    gauge.set(2);
    assert_eq!(gauge_value(&gauge), 1.5);
    gauge.set(3);
    assert_eq!(gauge_value(&gauge), 2.0);
    gauge.set(4);
    assert_eq!(gauge_value(&gauge), 3.0);
}

#[test]
pub fn test_rate_gauge() {
    let mut gauge = RateGauge::new();
    assert_eq!(rate_value(&gauge), 0.0);
    gauge.increment();
    assert_eq!(rate_value(&gauge), 1.0);
    gauge.decrement();
    assert_eq!(rate_value(&gauge), 0.5);
    gauge.increment();
    gauge.increment();
    gauge.increment();
    assert_eq!(rate_value(&gauge), 0.8);
}

#[test]
fn test_meter() {
    let mut meter = Meter::new();
    meter.increment_counter(MetricCounter::TotalAuthzRequests);
    meter.set_counter(MetricCounter::TotalJwtsValidated, 3);
    meter.set_gauge(MetricGauge::AvgDecisionMs, 1);
    meter.set_gauge(MetricGauge::AvgDecisionMs, 1);
    meter.set_gauge(MetricGauge::AvgDecisionMs, 7);
    meter.increment_rate(MetricRate::ValidJwtRate);
    meter.increment_rate(MetricRate::ValidJwtRate);
    meter.increment_rate(MetricRate::ValidJwtRate);
    meter.decrement_rate(MetricRate::ValidJwtRate);
    meter.decrement_rate(MetricRate::AuthzAllowRate);
    meter.decrement_rate(MetricRate::AuthzAllowRate);

    assert_eq!(meter.counter_value(MetricCounter::TotalAuthzRequests), 1);
    assert_eq!(meter.counter_value(MetricCounter::TotalJwtsValidated), 3);

    let (sum, count) = meter.gauge_value(MetricGauge::AvgDecisionMs);
    assert_eq!(sum as f64 / count as f64, 3.0);

    let (ok, bad) = meter.rate_value(MetricRate::ValidJwtRate);
    assert_eq!(ok as f64 / (ok + bad) as f64, 0.75);

    let (ok, bad) = meter.rate_value(MetricRate::AuthzAllowRate);
    assert_eq!(ok as f64 / ((ok + bad) as f64).max(1.0), 0.0);
}

#[test]
fn counter_is_monotonic() {
    let mut counter = Counter::new();
    assert_eq!(counter.value(), 0);
    counter.increment();
    assert_eq!(counter.value(), 1);
    counter.set(10);
    assert_eq!(counter.value(), 10);
    // setting a smaller value never lowers the count
    counter.set(4);
    assert_eq!(counter.value(), 10);
    counter.increment();
    assert_eq!(counter.value(), 11);
    counter.reset();
    assert_eq!(counter.value(), 0);
}

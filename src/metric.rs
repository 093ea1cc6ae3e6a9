//! Named counters and gauges of the Prometheus client, with the operations that each kind offers.
//!
//! The current value of a metric lives in an atomic shared by all clones of its handle, so no
//! contract here can speak of it: the operations below only forward to the client.

use vstd::prelude::*;

use prometheus_client::metrics::counter::Counter;
use prometheus_client::metrics::gauge::Gauge;

verus! {

/// Lets Prometheus counter handles appear in verified code.
#[verifier::external_type_specification]
#[verifier::external_body]
#[verifier::reject_recursive_types(N)]
#[verifier::reject_recursive_types(A)]
pub struct ExCounter<N, A>(Counter<N, A>);

/// Lets Prometheus gauge handles appear in verified code.
#[verifier::external_type_specification]
#[verifier::external_body]
#[verifier::reject_recursive_types(N)]
#[verifier::reject_recursive_types(A)]
pub struct ExGauge<N, A>(Gauge<N, A>);

/// Relies on prometheus_client's `Counter::inc`: adds one to the shared value.
#[verifier::external_body]
fn counter_inc(counter: &Counter<u64>) {
    counter.inc();
}

/// Relies on prometheus_client's `Counter::inc_by`: adds `v` to the shared value.
#[verifier::external_body]
fn counter_inc_by(counter: &Counter<u64>, v: u64) {
    counter.inc_by(v);
}

/// Relies on prometheus_client's `Counter::get`: reads the shared value.
#[verifier::external_body]
fn counter_get(counter: &Counter<u64>) -> u64 {
    counter.get()
}

/// Relies on prometheus_client's `Gauge::inc`: adds one to the shared value.
#[verifier::external_body]
fn gauge_inc(gauge: &Gauge<i64>) {
    gauge.inc();
}

/// Relies on prometheus_client's `Gauge::inc_by`: adds `v` to the shared value.
#[verifier::external_body]
pub(crate) fn gauge_inc_by(gauge: &Gauge<i64>, v: i64) {
    gauge.inc_by(v);
}

/// Relies on prometheus_client's `Gauge::dec`: subtracts one from the shared value.
#[verifier::external_body]
fn gauge_dec(gauge: &Gauge<i64>) {
    gauge.dec();
}

/// Relies on prometheus_client's `Gauge::dec_by`: subtracts `v` from the shared value.
#[verifier::external_body]
fn gauge_dec_by(gauge: &Gauge<i64>, v: i64) {
    gauge.dec_by(v);
}

/// Relies on prometheus_client's `Gauge::set`: replaces the shared value with `v`.
#[verifier::external_body]
fn gauge_set(gauge: &Gauge<i64>, v: i64) {
    gauge.set(v);
}

/// Relies on prometheus_client's `Gauge::get`: reads the shared value.
#[verifier::external_body]
fn gauge_get(gauge: &Gauge<i64>) -> i64 {
    gauge.get()
}

/// Associates a metric type with the type of its value.
pub trait MetricValueType {
    type Value;
}

impl MetricValueType for Counter<u64> {
    type Value = u64;
}

impl MetricValueType for Gauge<i64> {
    type Value = i64;
}

/// A metric handle together with its title and description.
pub struct BaseMetric<A> {
    pub metric: A,
    pub title: String,
    pub description: String,
}

/// What every metric offers: creation under a name, increments and reading the value.
pub trait BasicMetricOperations<A>: Sized where A: MetricValueType {
    fn new(metric_name: &str, metric_description: &str, metric: A) -> Self;

    fn increment_by_one(&self);

    fn increment_by_custom_value(&self, increment: <A as MetricValueType>::Value);

    fn get_metric_value(&self) -> <A as MetricValueType>::Value;
}

impl BasicMetricOperations<Counter<u64>> for BaseMetric<Counter<u64>> {
    fn new(metric_name: &str, metric_description: &str, metric: Counter<u64>) -> (r: Self)
        ensures
            r.title@ == metric_name@,
            r.description@ == metric_description@,
            r.metric == metric,
    {
        BaseMetric {
            metric,
            title: String::from_str(metric_name),
            description: String::from_str(metric_description),
        }
    }

    fn increment_by_one(&self) {
        counter_inc(&self.metric);
    }

    fn increment_by_custom_value(&self, increment: u64) {
        counter_inc_by(&self.metric, increment);
    }

    fn get_metric_value(&self) -> u64 {
        counter_get(&self.metric)
    }
}

/// What a gauge offers beyond the basic operations: decrements, reset and set.
pub trait GaugeMetricFunctionality<U>: BasicMetricOperations<U> where U: MetricValueType {
    fn reset_to_zero(&self);

    fn decrement_by_one(&self);

    fn decrement_by_custom_value(&self, decrement: <U as MetricValueType>::Value);

    fn set_to_custom_value(&self, desired_value: <U as MetricValueType>::Value);
}

impl BasicMetricOperations<Gauge<i64>> for BaseMetric<Gauge<i64>> {
    fn new(metric_name: &str, metric_description: &str, metric: Gauge<i64>) -> (r: Self)
        ensures
            r.title@ == metric_name@,
            r.description@ == metric_description@,
            r.metric == metric,
    {
        BaseMetric {
            metric,
            title: String::from_str(metric_name),
            description: String::from_str(metric_description),
        }
    }

    fn increment_by_one(&self) {
        gauge_inc(&self.metric);
    }

    fn increment_by_custom_value(&self, increment: i64) {
        gauge_inc_by(&self.metric, increment);
    }

    fn get_metric_value(&self) -> i64 {
        gauge_get(&self.metric)
    }
}

impl GaugeMetricFunctionality<Gauge<i64>> for BaseMetric<Gauge<i64>> {
    fn reset_to_zero(&self) {
        gauge_set(&self.metric, 0);
    }

    fn decrement_by_one(&self) {
        gauge_dec(&self.metric);
    }

    fn decrement_by_custom_value(&self, decrement: i64) {
        gauge_dec_by(&self.metric, decrement);
    }

    fn set_to_custom_value(&self, desired_value: i64) {
        gauge_set(&self.metric, desired_value);
    }
}

} // verus!

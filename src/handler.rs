//! The process-wide Prometheus registry and the metrics kept beside it.

use vstd::prelude::*;

use prometheus_client::metrics::gauge::Gauge;
use prometheus_client::registry::Registry;

use crate::metric::gauge_inc_by;

verus! {

/// Lets the Prometheus registry appear in verified code.
#[verifier::external_type_specification]
#[verifier::external_body]
pub struct ExRegistry(Registry);

/// Relies on prometheus_client's `Registry::default`: an empty registry without prefix or labels.
#[verifier::external_body]
fn empty_registry() -> Registry {
    Registry::default()
}

/// Relies on prometheus_client's `Gauge::default`: a new gauge whose shared value is zero.
#[verifier::external_body]
fn new_gauge() -> Gauge<i64> {
    Gauge::default()
}

/// The registry that metrics are registered in and rendered from.
#[derive(Debug)]
pub struct RegistryState {
    pub registry: Registry,
}

/// The metrics that the process keeps track of.
#[derive(Debug)]
pub struct Metrics {
    pub active_connections: Gauge<i64>,
}

impl Metrics {
    /// Adds 4 to the active connections gauge.
    pub fn inc_active_connections(&self) {
        gauge_inc_by(&self.active_connections, 4);
    }
}

/// The process's metrics together with the registry state.
pub struct PrometheusMetricHandler {
    pub all_metrics: Metrics,
    pub registry_state: RegistryState,
}

impl PrometheusMetricHandler {
    /// Fresh metrics and an empty registry.
    pub fn new() -> Self {
        PrometheusMetricHandler {
            all_metrics: Metrics { active_connections: new_gauge() },
            registry_state: RegistryState { registry: empty_registry() },
        }
    }
}

} // verus!

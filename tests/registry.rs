use std::cell::RefCell;
use std::rc::Rc;

use prometheus_client::encoding::text::encode;
use prometheus_client::metrics::counter::Counter;
use prometheus_client::metrics::gauge::Gauge;
use prometheus_client::metrics::histogram::Histogram;
use prometheus_client::registry::Registry;

use observability_kit::backend::MetricBackend;
use observability_kit::config::{MetricConfig, RegistryConfig};
use observability_kit::errors::DeserializeError;
use observability_kit::registry::ConfiguredRegistry;

/// A backend over the Prometheus client.
struct PrometheusBackend {
    registry: Registry,
}

impl MetricBackend for PrometheusBackend {
    type Counter = Counter<u64>;
    type Gauge = Gauge<i64>;
    type Histogram = Histogram;

    fn new() -> Self {
        PrometheusBackend { registry: Registry::default() }
    }

    fn create_counter(&mut self, name: &str, help: &str) -> Result<Counter<u64>, String> {
        let counter = Counter::<u64>::default();
        self.registry.register(name, help, counter.clone());
        Ok(counter)
    }

    fn create_gauge(&mut self, name: &str, help: &str) -> Result<Gauge<i64>, String> {
        let gauge = Gauge::<i64>::default();
        self.registry.register(name, help, gauge.clone());
        Ok(gauge)
    }

    fn create_histogram(&mut self, name: &str, help: &str, buckets: Vec<u64>) -> Result<Histogram, String> {
        let histogram = Histogram::new(buckets.into_iter().map(f64::from_bits));
        self.registry.register(name, help, histogram.clone());
        Ok(histogram)
    }

    fn increment_counter(counter: &Counter<u64>, amount: u64) {
        counter.inc_by(amount);
    }

    fn set_gauge(gauge: &Gauge<i64>, value: i64) {
        gauge.set(value);
    }

    fn render(&self) -> Result<String, String> {
        let mut out = String::new();
        encode(&mut out, &self.registry).map_err(|e| e.to_string())?;
        Ok(out)
    }
}

/// A backend that writes down every request, and refuses names that contain a space.
struct RecordingBackend {
    log: Rc<RefCell<Vec<String>>>,
}

#[derive(Debug)]
struct RecordedHandle {
    name: String,
    log: Rc<RefCell<Vec<String>>>,
}

impl RecordingBackend {
    fn create(&mut self, what: &str, name: &str) -> Result<RecordedHandle, String> {
        self.log.borrow_mut().push(format!("{} {}", what, name));
        if name.contains(' ') {
            return Err(format!("invalid name: {}", name));
        }
        Ok(RecordedHandle { name: name.to_string(), log: self.log.clone() })
    }

    fn entries(&self) -> Vec<String> {
        self.log.borrow().clone()
    }
}

impl MetricBackend for RecordingBackend {
    type Counter = RecordedHandle;
    type Gauge = RecordedHandle;
    type Histogram = RecordedHandle;

    fn new() -> Self {
        RecordingBackend { log: Rc::new(RefCell::new(Vec::new())) }
    }

    fn create_counter(&mut self, name: &str, _help: &str) -> Result<RecordedHandle, String> {
        self.create("counter", name)
    }

    fn create_gauge(&mut self, name: &str, _help: &str) -> Result<RecordedHandle, String> {
        self.create("gauge", name)
    }

    fn create_histogram(&mut self, name: &str, _help: &str, buckets: Vec<u64>) -> Result<RecordedHandle, String> {
        let bounds: Vec<String> = buckets.iter().map(|b| f64::from_bits(*b).to_string()).collect();
        self.create(&format!("histogram[{}]", bounds.join(",")), name)
    }

    fn increment_counter(counter: &RecordedHandle, amount: u64) {
        counter.log.borrow_mut().push(format!("inc {} {}", counter.name, amount));
    }

    fn set_gauge(gauge: &RecordedHandle, value: i64) {
        gauge.log.borrow_mut().push(format!("set {} {}", gauge.name, value));
    }

    fn render(&self) -> Result<String, String> {
        Ok(self.entries().join("\n"))
    }
}

fn counter_config(title: &str, description: &str, initial_value: u64) -> MetricConfig {
    MetricConfig::Counter {
        title: title.to_string(),
        description: description.to_string(),
        initial_value,
    }
}

fn gauge_config(title: &str, description: &str, initial_value: i64) -> MetricConfig {
    MetricConfig::Gauge {
        title: title.to_string(),
        description: description.to_string(),
        initial_value,
    }
}

fn histogram_config(title: &str, description: &str, buckets: Vec<f64>) -> MetricConfig {
    MetricConfig::Histogram {
        title: title.to_string(),
        description: description.to_string(),
        buckets: buckets.into_iter().map(f64::to_bits).collect(),
    }
}

#[test]
fn from_config_empty_returns_ok_with_empty_maps() {
    let config: RegistryConfig = vec![];
    let result = ConfiguredRegistry::<PrometheusBackend>::from_config(config);
    assert!(result.is_ok());
    let configured = result.unwrap();
    assert!(configured.counters.is_empty());
    assert!(configured.gauges.is_empty());
    assert!(configured.histograms.is_empty());
}

#[test]
fn from_config_single_counter_accessible_by_name() {
    let config: RegistryConfig = vec![counter_config("requests_total", "Total requests", 0)];
    let configured = ConfiguredRegistry::<PrometheusBackend>::from_config(config).unwrap();
    assert_eq!(configured.counters.len(), 1);
    let c = configured.counters.get("requests_total").unwrap();
    assert_eq!(c.get(), 0);
    c.inc();
    assert_eq!(c.get(), 1);
}

#[test]
fn from_config_counter_initial_value_set() {
    let config: RegistryConfig = vec![counter_config("count", "A counter", 10)];
    let configured = ConfiguredRegistry::<PrometheusBackend>::from_config(config).unwrap();
    let c = configured.counters.get("count").unwrap();
    assert_eq!(c.get(), 10);
}

#[test]
fn from_config_single_gauge_accessible_by_name() {
    let config: RegistryConfig = vec![gauge_config("active", "Active connections", 0)];
    let configured = ConfiguredRegistry::<PrometheusBackend>::from_config(config).unwrap();
    assert_eq!(configured.gauges.len(), 1);
    let g = configured.gauges.get("active").unwrap();
    g.set(42);
    assert_eq!(g.get(), 42);
}

#[test]
fn from_config_gauge_initial_value_set() {
    let config: RegistryConfig = vec![gauge_config("level", "Level", 100)];
    let configured = ConfiguredRegistry::<PrometheusBackend>::from_config(config).unwrap();
    let g = configured.gauges.get("level").unwrap();
    assert_eq!(g.get(), 100);
}

#[test]
fn from_config_single_histogram_accessible_by_name() {
    let buckets = vec![0.1, 0.5, 1.0];
    let config: RegistryConfig = vec![histogram_config("latency", "Latency", buckets)];
    let configured = ConfiguredRegistry::<PrometheusBackend>::from_config(config).unwrap();
    assert_eq!(configured.histograms.len(), 1);
    let h = configured.histograms.get("latency").unwrap();
    h.observe(0.25);
}

#[test]
fn from_config_duplicate_counter_name_returns_error() {
    let config: RegistryConfig = vec![
        counter_config("same_name", "First", 0),
        counter_config("same_name", "Second", 0),
    ];
    let result = ConfiguredRegistry::<PrometheusBackend>::from_config(config);
    match result {
        Err(DeserializeError::DuplicateMetricName(name)) => assert_eq!(name, "same_name"),
        Err(e) => panic!("expected DuplicateMetricName, got error: {:?}", e),
        Ok(_) => panic!("expected DuplicateMetricName, got Ok"),
    }
}

#[test]
fn from_config_duplicate_gauge_name_returns_error() {
    let config: RegistryConfig = vec![
        gauge_config("same_gauge", "First", 0),
        gauge_config("same_gauge", "Second", 0),
    ];
    let result = ConfiguredRegistry::<PrometheusBackend>::from_config(config);
    match result {
        Err(DeserializeError::DuplicateMetricName(name)) => assert_eq!(name, "same_gauge"),
        Err(e) => panic!("expected DuplicateMetricName, got error: {:?}", e),
        Ok(_) => panic!("expected DuplicateMetricName, got Ok"),
    }
}

#[test]
fn from_config_duplicate_histogram_name_returns_error() {
    let buckets = vec![1.0, 2.0];
    let config: RegistryConfig = vec![
        histogram_config("same_hist", "First", buckets.clone()),
        histogram_config("same_hist", "Second", buckets),
    ];
    let result = ConfiguredRegistry::<PrometheusBackend>::from_config(config);
    match result {
        Err(DeserializeError::DuplicateMetricName(name)) => assert_eq!(name, "same_hist"),
        Err(e) => panic!("expected DuplicateMetricName, got error: {:?}", e),
        Ok(_) => panic!("expected DuplicateMetricName, got Ok"),
    }
}

#[test]
fn from_config_same_name_different_types_allowed() {
    let config: RegistryConfig = vec![
        counter_config("metric", "Counter", 0),
        gauge_config("metric", "Gauge", 0),
        histogram_config("metric", "Histogram", vec![1.0]),
    ];
    let result = ConfiguredRegistry::<PrometheusBackend>::from_config(config);
    assert!(result.is_ok());
    let configured = result.unwrap();
    assert!(configured.counters.contains_key("metric"));
    assert!(configured.gauges.contains_key("metric"));
    assert!(configured.histograms.contains_key("metric"));
}

#[test]
fn registry_only_registers_without_storing_refs() {
    let config: RegistryConfig = vec![
        counter_config("c", "Counter", 0),
        gauge_config("g", "Gauge", 0),
    ];
    let result = ConfiguredRegistry::<PrometheusBackend>::registry_only(config);
    assert!(result.is_ok());
    let registry = result.unwrap();
    let output = registry.render();
    assert!(output.is_ok());
}

#[test]
fn build_indexes_each_definition_under_its_kind() {
    let config: RegistryConfig = vec![
        counter_config("a", "A", 0),
        gauge_config("b", "B", 0),
        counter_config("c", "C", 0),
        histogram_config("d", "D", vec![1.0]),
    ];
    let configured = ConfiguredRegistry::<RecordingBackend>::from_config(config).unwrap();
    let total = configured.counters.len() + configured.gauges.len() + configured.histograms.len();
    assert_eq!(total, 4);
    assert!(configured.counters.contains_key("a"));
    assert!(configured.counters.contains_key("c"));
    assert!(!configured.counters.contains_key("b"));
    assert!(configured.gauges.contains_key("b"));
    assert!(!configured.gauges.contains_key("a"));
    assert!(configured.histograms.contains_key("d"));
    assert!(configured.histograms.get("a").is_none());
    assert_eq!(configured.counters.get("c").unwrap().name, "c");
}

#[test]
fn duplicate_stops_registration_of_later_definitions() {
    let config: RegistryConfig = vec![
        counter_config("a", "A", 0),
        counter_config("b", "B", 0),
        counter_config("a", "again", 0),
        gauge_config("c", "C", 0),
    ];
    let mut registry = observability_kit::backend::ObservabilityRegistry::<RecordingBackend>::new();
    let result = ConfiguredRegistry::build(&config, &mut registry);
    match result {
        Err(DeserializeError::DuplicateMetricName(name)) => assert_eq!(name, "a"),
        Err(e) => panic!("expected DuplicateMetricName, got error: {:?}", e),
        Ok(_) => panic!("expected DuplicateMetricName, got Ok"),
    }
    assert_eq!(registry.backend().entries(), vec!["counter a".to_string(), "counter b".to_string()]);
}

#[test]
fn backend_refusal_is_reported_and_stops_the_build() {
    let config: RegistryConfig = vec![
        gauge_config("ok", "fine", 3),
        counter_config("bad name", "refused", 0),
        counter_config("later", "never", 0),
    ];
    let mut registry = observability_kit::backend::ObservabilityRegistry::<RecordingBackend>::new();
    let result = ConfiguredRegistry::build(&config, &mut registry);
    match result {
        Err(DeserializeError::BackendError(message)) => assert_eq!(message, "invalid name: bad name"),
        Err(e) => panic!("expected BackendError, got error: {:?}", e),
        Ok(_) => panic!("expected BackendError, got Ok"),
    }
    assert_eq!(
        registry.backend().entries(),
        vec!["gauge ok".to_string(), "set ok 3".to_string(), "counter bad name".to_string()]
    );
}

#[test]
fn registry_only_reports_backend_refusal() {
    let config: RegistryConfig = vec![counter_config("bad name", "refused", 0)];
    match ConfiguredRegistry::<RecordingBackend>::registry_only(config) {
        Err(DeserializeError::BackendError(message)) => assert_eq!(message, "invalid name: bad name"),
        Err(e) => panic!("expected BackendError, got error: {:?}", e),
        Ok(_) => panic!("expected BackendError, got Ok"),
    }
}

#[test]
fn registry_only_rejects_repeated_titles() {
    let config: RegistryConfig = vec![
        counter_config("x", "one", 0),
        gauge_config("x", "other kind", 0),
        counter_config("x", "two", 0),
        counter_config("y", "later", 0),
    ];
    match ConfiguredRegistry::<RecordingBackend>::registry_only(config) {
        Err(DeserializeError::DuplicateMetricName(name)) => assert_eq!(name, "x"),
        Err(e) => panic!("expected DuplicateMetricName, got error: {:?}", e),
        Ok(_) => panic!("expected DuplicateMetricName, got Ok"),
    }
}

#[test]
fn stored_handles_are_the_backends() {
    let config: RegistryConfig = vec![
        counter_config("c", "C", 0),
        gauge_config("g", "G", 0),
        histogram_config("h", "H", vec![1.0]),
    ];
    let configured = ConfiguredRegistry::<RecordingBackend>::from_config(config).unwrap();
    assert_eq!(configured.counters.get("c").unwrap().name, "c");
    assert_eq!(configured.gauges.get("g").unwrap().name, "g");
    assert_eq!(configured.histograms.get("h").unwrap().name, "h");
}

#[test]
fn zero_initial_values_make_no_calls() {
    let config: RegistryConfig = vec![counter_config("c", "C", 0), gauge_config("g", "G", 0)];
    let configured = ConfiguredRegistry::<RecordingBackend>::from_config(config).unwrap();
    assert_eq!(
        configured.registry.backend().entries(),
        vec!["counter c".to_string(), "gauge g".to_string()]
    );
}

#[test]
fn counter_initial_zero_reads_zero() {
    let config: RegistryConfig = vec![counter_config("zero", "Z", 0)];
    let configured = ConfiguredRegistry::<PrometheusBackend>::from_config(config).unwrap();
    assert_eq!(configured.counters.get("zero").unwrap().get(), 0);
}

#[test]
fn gauge_negative_initial_value_is_set() {
    let config: RegistryConfig = vec![gauge_config("temp", "T", -5)];
    let configured = ConfiguredRegistry::<PrometheusBackend>::from_config(config).unwrap();
    assert_eq!(configured.gauges.get("temp").unwrap().get(), -5);
    let recorded = ConfiguredRegistry::<RecordingBackend>::from_config(vec![gauge_config("temp", "T", -5)]).unwrap();
    assert_eq!(
        recorded.registry.backend().entries(),
        vec!["gauge temp".to_string(), "set temp -5".to_string()]
    );
}

#[test]
fn counter_initial_value_is_one_increment() {
    let configured =
        ConfiguredRegistry::<RecordingBackend>::from_config(vec![counter_config("n", "N", 10)]).unwrap();
    assert_eq!(
        configured.registry.backend().entries(),
        vec!["counter n".to_string(), "inc n 10".to_string()]
    );
}

#[test]
fn histogram_buckets_pass_through_in_order() {
    let configured = ConfiguredRegistry::<RecordingBackend>::from_config(vec![histogram_config(
        "h",
        "H",
        vec![2.5, 0.1, 7.0],
    )])
    .unwrap();
    assert_eq!(configured.registry.backend().entries(), vec!["histogram[2.5,0.1,7] h".to_string()]);
}

#[test]
fn empty_config_renders_empty_registry() {
    let configured = ConfiguredRegistry::<PrometheusBackend>::from_config(vec![]).unwrap();
    assert!(configured.counters.is_empty());
    assert!(configured.gauges.is_empty());
    assert!(configured.histograms.is_empty());
    assert_eq!(configured.registry.render().unwrap(), "# EOF\n");
}

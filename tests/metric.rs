use prometheus_client::metrics::counter::Counter;
use prometheus_client::metrics::gauge::Gauge;

use observability_kit::config::{count_kinds, default_histogram_buckets, MetricConfig};
use observability_kit::handler::{Metrics, PrometheusMetricHandler};
use observability_kit::metric::{BaseMetric, BasicMetricOperations, GaugeMetricFunctionality};
use observability_kit::named::NamedMap;

#[test]
fn test_metric_type_counter() {
    let test_counter = Counter::default();
    let test_metric = BaseMetric::new(
        "test_metric_counter",
        "A metric for declaring a counter",
        test_counter,
    );
    assert_eq!(test_metric.get_metric_value(), 0);
    test_metric.increment_by_one();
    assert_eq!(test_metric.get_metric_value(), 1);
    test_metric.increment_by_custom_value(20);
    assert_eq!(test_metric.get_metric_value(), 21);
}

#[test]
fn test_metric_type_gauge() {
    let test_gauge = Gauge::default();
    let test_metric_gauge = BaseMetric::new(
        "test_metric_counter",
        "A metric for declaring a counter",
        test_gauge,
    );
    assert_eq!(test_metric_gauge.get_metric_value(), 0);
    test_metric_gauge.increment_by_one();
    assert_eq!(test_metric_gauge.get_metric_value(), 1);
    test_metric_gauge.increment_by_custom_value(20);
    assert_eq!(test_metric_gauge.get_metric_value(), 21);
    test_metric_gauge.decrement_by_one();
    assert_eq!(test_metric_gauge.get_metric_value(), 20);
    test_metric_gauge.decrement_by_custom_value(10);
    assert_eq!(test_metric_gauge.get_metric_value(), 10);
    test_metric_gauge.reset_to_zero();
    assert_eq!(test_metric_gauge.get_metric_value(), 0);
    test_metric_gauge.set_to_custom_value(500);
    assert_eq!(test_metric_gauge.get_metric_value(), 500);
}

#[test]
fn test_metric_handler_is_valid() {
    let test_metrics = Metrics {
        active_connections: Default::default(),
    };
    let test_default = test_metrics.active_connections.get();
    assert_eq!(test_default, 0);
}

#[test]
fn base_metric_keeps_title_and_description() {
    let metric: BaseMetric<Counter<u64>> = BaseMetric::new("hits", "Number of hits", Counter::default());
    assert_eq!(metric.title, "hits");
    assert_eq!(metric.description, "Number of hits");
}

#[test]
fn active_connections_grow_by_four() {
    let handler = PrometheusMetricHandler::new();
    assert_eq!(handler.all_metrics.active_connections.get(), 0);
    handler.all_metrics.inc_active_connections();
    assert_eq!(handler.all_metrics.active_connections.get(), 4);
}

#[test]
fn default_buckets_are_the_latency_preset() {
    let bounds: Vec<f64> = default_histogram_buckets().into_iter().map(f64::from_bits).collect();
    assert_eq!(bounds, vec![0.005, 0.01, 0.025, 0.05, 0.1, 0.25, 0.5, 1.0, 2.5, 5.0, 10.0]);
}

#[test]
fn kinds_are_counted_separately() {
    let config = vec![
        MetricConfig::Gauge { title: "g".to_string(), description: "G".to_string(), initial_value: 1 },
        MetricConfig::Counter { title: "c".to_string(), description: "C".to_string(), initial_value: 0 },
        MetricConfig::Gauge { title: "h".to_string(), description: "H".to_string(), initial_value: 0 },
    ];
    assert_eq!(count_kinds(&config), (1, 2, 0));
    assert_eq!(count_kinds(&vec![]), (0, 0, 0));
}

#[test]
fn named_map_keeps_titles_and_handles() {
    let mut map: NamedMap<u32> = NamedMap::with_capacity(2);
    assert!(map.is_empty());
    map.insert_new("first".to_string(), 1);
    map.insert_new("second".to_string(), 2);
    assert_eq!(map.len(), 2);
    assert_eq!(map.get("second"), Some(&2));
    assert_eq!(map.get("first"), Some(&1));
    assert_eq!(map.get("third"), None);
    assert!(map.contains_key("first"));
    assert!(!map.contains_key("firs"));
}

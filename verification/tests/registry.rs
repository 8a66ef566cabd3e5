use telemetry_agent::counters::{error_counter_name, raise, Counters};
use telemetry_agent::gauges::Gauges;
use telemetry_agent::histograms::Histograms;
use telemetry_agent::inflight::Inflight;
use telemetry_agent::{Double, Metric, Reading, Value};

fn d(x: f64) -> Double {
    Double::from_bits(x.to_bits())
}

fn count(metrics: &[Metric], name: &str) -> Option<u64> {
    for m in metrics {
        if m.name == name {
            match &m.samples[0].value {
                Value::Counter(c) => return Some(*c),
                _ => panic!("{} is no counter", name),
            }
        }
    }
    None
}

fn names(metrics: &[Metric]) -> Vec<String> {
    metrics.iter().map(|m| m.name.clone()).collect()
}

#[test]
fn a_gauge_keeps_the_last_value() {
    let mut gauges = Gauges::new();
    gauges.set("cpu", d(0.25));
    gauges.set("mem", d(512.0));
    gauges.set("cpu", d(0.75));
    let metrics = gauges.metrics(7);
    assert_eq!(names(&metrics), vec!["cpu".to_string(), "mem".to_string()]);
    assert_eq!(metrics[0].samples.len(), 1);
    assert_eq!(metrics[0].samples[0].timestamp_ns, 7);
    assert_eq!(metrics[0].samples[0].value, Value::Gauge(Reading::Real(d(0.75))));
    assert_eq!(metrics[1].samples[0].value, Value::Gauge(Reading::Real(d(512.0))));
    assert!(metrics[0].labels.is_empty());
}

#[test]
fn a_gauge_takes_any_number() {
    let mut gauges = Gauges::new();
    gauges.set("odd", d(f64::NAN));
    gauges.set("low", d(-1e9));
    let metrics = gauges.metrics(0);
    assert_eq!(metrics[0].samples[0].value, Value::Gauge(Reading::Real(d(f64::NAN))));
    assert_eq!(metrics[1].samples[0].value, Value::Gauge(Reading::Real(d(-1e9))));
}

#[test]
fn collecting_gauges_changes_none() {
    let mut gauges = Gauges::new();
    gauges.set("cpu", d(0.5));
    let first = gauges.metrics(1);
    let second = gauges.metrics(1);
    assert_eq!(first, second);
}

#[test]
fn no_gauges_no_metrics() {
    assert!(Gauges::new().metrics(1).is_empty());
    assert!(Counters::new().metrics(1).is_empty());
    assert!(Histograms::new().metrics_and_reset(1).is_empty());
}

#[test]
fn a_counter_counts_its_calls() {
    let mut counters = Counters::new();
    for _ in 0..1000 {
        counters.inc("requests");
    }
    counters.inc("other");
    let metrics = counters.metrics(3);
    assert_eq!(count(&metrics, "requests"), Some(1000));
    assert_eq!(count(&metrics, "other"), Some(1));
    assert_eq!(metrics.len(), 2);
    assert_eq!(metrics[0].samples[0].timestamp_ns, 3);
}

#[test]
fn collecting_counters_does_not_reset_them() {
    let mut counters = Counters::new();
    counters.inc("requests");
    counters.inc("requests");
    assert_eq!(count(&counters.metrics(1), "requests"), Some(2));
    counters.inc("requests");
    assert_eq!(count(&counters.metrics(2), "requests"), Some(3));
}

#[test]
fn counters_keep_the_order_in_which_they_came() {
    let mut counters = Counters::new();
    counters.inc("b");
    counters.inc("a");
    counters.inc("c");
    counters.inc("a");
    assert_eq!(
        names(&counters.metrics(0)),
        vec!["b".to_string(), "a".to_string(), "c".to_string()]
    );
}

#[test]
fn an_error_is_counted_twice() {
    let mut counters = Counters::new();
    counters.record_error("timeout");
    let metrics = counters.metrics(0);
    assert_eq!(count(&metrics, "errors_timeout"), Some(1));
    assert_eq!(count(&metrics, "errors_total"), Some(1));
    assert_eq!(metrics.len(), 2);

    counters.record_error("timeout");
    counters.record_error("refused");
    let metrics = counters.metrics(0);
    assert_eq!(count(&metrics, "errors_timeout"), Some(2));
    assert_eq!(count(&metrics, "errors_refused"), Some(1));
    assert_eq!(count(&metrics, "errors_total"), Some(3));
}

#[test]
fn an_error_of_the_kind_total_raises_one_counter_twice() {
    let mut counters = Counters::new();
    counters.record_error("total");
    let metrics = counters.metrics(0);
    assert_eq!(metrics.len(), 1);
    assert_eq!(count(&metrics, "errors_total"), Some(2));
}

#[test]
fn the_name_of_an_error_counter() {
    assert_eq!(error_counter_name("timeout"), "errors_timeout");
    assert_eq!(error_counter_name(""), "errors_");
    assert_eq!(error_counter_name("total"), "errors_total");
}

#[test]
fn a_histogram_is_made_with_its_first_sample() {
    let mut histograms = Histograms::new();
    histograms.record("latency", d(7.0));
    histograms.record("size", d(20000.0));
    histograms.record("latency", d(0.5));
    let metrics = histograms.metrics_and_reset(9);
    assert_eq!(names(&metrics), vec!["latency".to_string(), "size".to_string()]);
    match &metrics[0].samples[0].value {
        Value::Histogram { bounds, counts } => {
            assert_eq!(bounds.len(), 12);
            assert_eq!(bounds[2], d(10.0));
            assert_eq!(counts, &vec![1, 0, 1, 0, 0, 0, 0, 0, 0, 0, 0, 0, 0]);
        }
        _ => panic!("no histogram"),
    }
    match &metrics[1].samples[0].value {
        Value::Histogram { counts, .. } => {
            assert_eq!(counts, &vec![0, 0, 0, 0, 0, 0, 0, 0, 0, 0, 0, 0, 1]);
        }
        _ => panic!("no histogram"),
    }
    assert_eq!(metrics[0].samples[0].timestamp_ns, 9);
}

#[test]
fn collecting_histograms_resets_them_and_keeps_them() {
    let mut histograms = Histograms::new();
    histograms.record("latency", d(7.0));
    histograms.metrics_and_reset(1);
    let metrics = histograms.metrics_and_reset(2);
    assert_eq!(metrics.len(), 1);
    match &metrics[0].samples[0].value {
        Value::Histogram { counts, .. } => assert_eq!(counts, &vec![0u64; 13]),
        _ => panic!("no histogram"),
    }
    histograms.record("latency", d(7.0));
    histograms.record("latency", d(8.0));
    let metrics = histograms.metrics_and_reset(3);
    match &metrics[0].samples[0].value {
        Value::Histogram { counts, .. } => assert_eq!(counts[2], 2),
        _ => panic!("no histogram"),
    }
}

#[test]
fn requests_begin_and_end() {
    let mut inflight = Inflight::new();
    assert_eq!(inflight.level(), 0);
    inflight.enter();
    inflight.enter();
    assert_eq!(inflight.level(), 2);
    inflight.leave();
    assert_eq!(inflight.level(), 1);
    inflight.leave();
    assert_eq!(inflight.level(), 0);
}

#[test]
fn paired_requests_leave_the_level_as_it_was() {
    let mut inflight = Inflight::new();
    let mut lowest = 0;
    for round in 0..50 {
        for _ in 0..(round % 7) {
            inflight.enter();
        }
        for _ in 0..(round % 7) {
            inflight.leave();
            lowest = lowest.min(inflight.level());
        }
    }
    assert_eq!(inflight.level(), 0);
    assert_eq!(lowest, 0);
}

#[test]
fn a_request_that_ends_before_it_began_shows_below_zero() {
    let mut inflight = Inflight::new();
    inflight.leave();
    assert_eq!(inflight.level(), -1);
    inflight.enter();
    assert_eq!(inflight.level(), 0);
}

#[test]
fn a_count_rises_by_one_and_never_falls() {
    assert_eq!(raise(0), 1);
    assert_eq!(raise(41), 42);
    assert_eq!(raise(u64::MAX - 1), u64::MAX);
    assert_eq!(raise(u64::MAX), u64::MAX);
}

#[test]
fn a_latency_is_a_sample_of_the_histogram_latency() {
    let mut histograms = Histograms::new();
    histograms.record("size", d(1.0));
    histograms.record_latency(d(7.0));
    histograms.record_latency(d(0.5));
    histograms.record("latency", d(7.5));
    let metrics = histograms.metrics_and_reset(1);
    assert_eq!(names(&metrics), vec!["size".to_string(), "latency".to_string()]);
    match &metrics[1].samples[0].value {
        Value::Histogram { counts, .. } => {
            assert_eq!(counts, &vec![1, 0, 2, 0, 0, 0, 0, 0, 0, 0, 0, 0, 0]);
        }
        _ => panic!("no histogram"),
    }
}

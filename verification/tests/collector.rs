use telemetry_agent::collector::assemble;
use telemetry_agent::cycle::{step, Action, Cycle, Event};
use telemetry_agent::{Batch, Double, Metric, Reading, Value};

fn d(x: f64) -> Double {
    Double::from_bits(x.to_bits())
}

fn batch_with(n: usize) -> Batch {
    let mut metrics = Vec::new();
    for i in 0..n {
        metrics.push(Metric::single(format!("m{}", i), 1, Value::Counter(i as u64)));
    }
    Batch { service: "s".to_string(), instance: "i".to_string(), metrics }
}

#[test]
fn a_metric_with_one_sample() {
    let metric = Metric::single("cpu".to_string(), 42, Value::Gauge(Reading::Real(d(0.5))));
    assert_eq!(metric.name, "cpu");
    assert!(metric.labels.is_empty());
    assert_eq!(metric.samples.len(), 1);
    assert_eq!(metric.samples[0].timestamp_ns, 42);
    assert_eq!(metric.samples[0].value, Value::Gauge(Reading::Real(d(0.5))));
}

#[test]
fn an_empty_registry_yields_one_metric() {
    let batch = assemble("svc", "inst", 5, Vec::new(), Vec::new(), Vec::new(), 0);
    assert_eq!(batch.service, "svc");
    assert_eq!(batch.instance, "inst");
    assert_eq!(batch.metrics.len(), 1);
    assert_eq!(batch.metrics[0].name, "inflight");
    assert!(batch.metrics[0].labels.is_empty());
    assert_eq!(batch.metrics[0].samples.len(), 1);
    assert_eq!(batch.metrics[0].samples[0].timestamp_ns, 5);
    assert_eq!(batch.metrics[0].samples[0].value, Value::Gauge(Reading::Whole(0)));
}

#[test]
fn a_batch_keeps_the_order_of_its_parts() {
    let gauges = vec![Metric::single("g".to_string(), 5, Value::Gauge(Reading::Real(d(1.5))))];
    let counters = vec![
        Metric::single("c1".to_string(), 5, Value::Counter(3)),
        Metric::single("c2".to_string(), 5, Value::Counter(4)),
    ];
    let histograms = vec![Metric::single(
        "h".to_string(),
        5,
        Value::Histogram { bounds: vec![d(1.0)], counts: vec![2, 0] },
    )];
    let batch = assemble("svc", "inst", 5, gauges, counters, histograms, -2);
    let names: Vec<&str> = batch.metrics.iter().map(|m| m.name.as_str()).collect();
    assert_eq!(names, vec!["g", "c1", "c2", "h", "inflight"]);
    assert_eq!(batch.metrics[2].samples[0].value, Value::Counter(4));
    assert_eq!(batch.metrics[4].samples[0].value, Value::Gauge(Reading::Whole(-2)));
}

#[test]
fn a_tick_with_metrics_starts_a_send() {
    let batch = batch_with(2);
    let (cycle, action) = step(Cycle::Waiting, Event::Tick(batch.clone()));
    assert_eq!(cycle, Cycle::Sending);
    match action {
        Action::Send(sent) => assert_eq!(sent, batch),
        other => panic!("{:?}", other),
    }
}

#[test]
fn a_tick_with_an_empty_batch_is_passed_over() {
    let (cycle, action) = step(Cycle::Waiting, Event::Tick(batch_with(0)));
    assert_eq!(cycle, Cycle::Waiting);
    assert!(matches!(action, Action::Wait));
}

#[test]
fn a_send_ends_in_waiting() {
    let (cycle, action) = step(Cycle::Sending, Event::Sent);
    assert_eq!(cycle, Cycle::Waiting);
    assert!(matches!(action, Action::Wait));
}

#[test]
fn a_failed_send_is_logged_and_not_tried_again() {
    let (cycle, action) = step(Cycle::Sending, Event::SendFailed);
    assert_eq!(cycle, Cycle::Waiting);
    assert!(matches!(action, Action::LogFailure));
}

#[test]
fn the_shutdown_signal_ends_the_cycle() {
    let (cycle, action) = step(Cycle::Waiting, Event::Shutdown);
    assert_eq!(cycle, Cycle::Exited);
    assert!(matches!(action, Action::Exit));
    let (cycle, action) = step(Cycle::Sending, Event::Shutdown);
    assert_eq!(cycle, Cycle::Exited);
    assert!(matches!(action, Action::Exit));
}

#[test]
fn a_cycle_that_has_ended_stays_so() {
    for event in [Event::Tick(batch_with(1)), Event::Sent, Event::SendFailed, Event::Shutdown] {
        let (cycle, action) = step(Cycle::Exited, event);
        assert_eq!(cycle, Cycle::Exited);
        assert!(matches!(action, Action::Exit));
    }
}

#[test]
fn events_out_of_turn_change_nothing() {
    let (cycle, action) = step(Cycle::Sending, Event::Tick(batch_with(1)));
    assert_eq!(cycle, Cycle::Sending);
    assert!(matches!(action, Action::Wait));
    let (cycle, action) = step(Cycle::Waiting, Event::Sent);
    assert_eq!(cycle, Cycle::Waiting);
    assert!(matches!(action, Action::Wait));
    let (cycle, action) = step(Cycle::Waiting, Event::SendFailed);
    assert_eq!(cycle, Cycle::Waiting);
    assert!(matches!(action, Action::Wait));
}

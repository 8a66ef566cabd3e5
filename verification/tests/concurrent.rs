use std::sync::Arc;

use telemetry_agent::{Agent, Batch, Config, Double, Reading, Value};

fn d(x: f64) -> Double {
    Double::from_bits(x.to_bits())
}

fn value<'a>(batch: &'a Batch, name: &str) -> &'a Value {
    let found: Vec<_> = batch.metrics.iter().filter(|m| m.name == name).collect();
    assert_eq!(found.len(), 1, "{}", name);
    &found[0].samples[0].value
}

#[test]
fn counts_from_many_threads_are_all_kept() {
    let runtime = tokio::runtime::Builder::new_multi_thread().worker_threads(2).build().unwrap();
    let agent = Arc::new(Agent::new(Config::default()));
    let mut tasks = Vec::new();
    for _ in 0..8 {
        let agent = Arc::clone(&agent);
        tasks.push(runtime.spawn_blocking(move || {
            for i in 0..1000 {
                agent.inc_counter("requests");
                agent.record_histogram("size", d(3.0));
                let guard = agent.track_request();
                agent.set_gauge("last", d(i as f64));
                guard.release(d(0.5));
            }
        }));
    }
    let mut seen: u64 = 0;
    for _ in 0..20 {
        match agent.collect().metrics.iter().find(|m| m.name == "size") {
            Some(metric) => match &metric.samples[0].value {
                Value::Histogram { counts, .. } => seen += counts.iter().sum::<u64>(),
                other => panic!("{:?}", other),
            },
            None => {}
        }
    }
    for task in tasks {
        runtime.block_on(task).unwrap();
    }
    let batch = agent.collect();
    assert_eq!(value(&batch, "requests"), &Value::Counter(8000));
    assert_eq!(value(&batch, "inflight"), &Value::Gauge(Reading::Whole(0)));
    match value(&batch, "size") {
        Value::Histogram { counts, .. } => {
            seen += counts.iter().sum::<u64>();
            assert_eq!(counts[1], counts.iter().sum::<u64>());
        }
        other => panic!("{:?}", other),
    }
    assert_eq!(seen, 8000);
}

//! What one collection hands to the aggregator.

use crate::double::Double;
use vstd::prelude::*;

verus! {

/// What a gauge reads: a number that was set, or a whole number that the
/// registry counted itself.
#[derive(Clone, Copy, Debug, PartialEq, Eq, Structural)]
pub enum Reading {
    Real(Double),
    Whole(i64),
}

/// The value of a sample.
#[derive(Clone, Debug, PartialEq, Eq)]
pub enum Value {
    /// The last value of a gauge.
    Gauge(Reading),
    /// The running total of a counter.
    Counter(u64),
    /// The bounds of a histogram and its counts since the collection before.
    Histogram { bounds: Vec<Double>, counts: Vec<u64> },
}

/// A value with the time at which it was captured, in nanoseconds since the epoch.
#[derive(Clone, Debug, PartialEq, Eq)]
pub struct Sample {
    pub timestamp_ns: u64,
    pub value: Value,
}

/// A named metric with its samples. The registry gives a metric no labels.
#[derive(Clone, Debug, PartialEq, Eq)]
pub struct Metric {
    pub name: String,
    pub labels: Vec<(String, String)>,
    pub samples: Vec<Sample>,
}

/// The metrics of one collection, with the service and the instance they come from.
#[derive(Clone, Debug, PartialEq, Eq)]
pub struct Batch {
    pub service: String,
    pub instance: String,
    pub metrics: Vec<Metric>,
}

/// A `Value` in specifications.
pub enum ValueView {
    Gauge(Reading),
    Counter(u64),
    Histogram { bounds: Seq<Double>, counts: Seq<u64> },
}

/// A `Sample` in specifications.
pub struct SampleView {
    pub timestamp_ns: u64,
    pub value: ValueView,
}

/// A `Metric` in specifications.
pub struct MetricView {
    pub name: Seq<char>,
    pub labels: Seq<(Seq<char>, Seq<char>)>,
    pub samples: Seq<SampleView>,
}

/// A `Batch` in specifications.
pub struct BatchView {
    pub service: Seq<char>,
    pub instance: Seq<char>,
    pub metrics: Seq<MetricView>,
}

impl View for Value {
    type V = ValueView;

    open spec fn view(&self) -> ValueView {
        match *self {
            Value::Gauge(reading) => ValueView::Gauge(reading),
            Value::Counter(count) => ValueView::Counter(count),
            Value::Histogram { bounds, counts } => ValueView::Histogram {
                bounds: bounds@,
                counts: counts@,
            },
        }
    }
}

impl View for Sample {
    type V = SampleView;

    open spec fn view(&self) -> SampleView {
        SampleView { timestamp_ns: self.timestamp_ns, value: self.value@ }
    }
}

/// Samples in specifications.
pub open spec fn sample_views(samples: Seq<Sample>) -> Seq<SampleView> {
    Seq::new(samples.len(), |i: int| samples[i]@)
}

/// Labels in specifications.
pub open spec fn label_views(labels: Seq<(String, String)>) -> Seq<(Seq<char>, Seq<char>)> {
    Seq::new(labels.len(), |i: int| (labels[i].0@, labels[i].1@))
}

impl View for Metric {
    type V = MetricView;

    open spec fn view(&self) -> MetricView {
        MetricView {
            name: self.name@,
            labels: label_views(self.labels@),
            samples: sample_views(self.samples@),
        }
    }
}

/// Metrics in specifications.
pub open spec fn metric_views(metrics: Seq<Metric>) -> Seq<MetricView> {
    Seq::new(metrics.len(), |i: int| metrics[i]@)
}

impl View for Batch {
    type V = BatchView;

    open spec fn view(&self) -> BatchView {
        BatchView {
            service: self.service@,
            instance: self.instance@,
            metrics: metric_views(self.metrics@),
        }
    }
}

/// The metric `name` with no label and one sample: `value`, captured at `now`.
pub open spec fn metric_of(name: Seq<char>, now: u64, value: ValueView) -> MetricView {
    MetricView {
        name,
        labels: Seq::empty(),
        samples: seq![SampleView { timestamp_ns: now, value }],
    }
}

/// Appending one metric appends its view.
pub proof fn lemma_metric_views_push(metrics: Seq<Metric>, metric: Metric)
    ensures
        metric_views(metrics.push(metric)) == metric_views(metrics).push(metric@),
{
    assert(metric_views(metrics.push(metric)) =~= metric_views(metrics).push(metric@));
}

impl Metric {
    /// The metric `name` with no label and one sample: `value`, captured at `now`.
    pub fn single(name: String, now: u64, value: Value) -> (metric: Metric)
        ensures
            metric@ == metric_of(name@, now, value@),
    {
        let mut samples: Vec<Sample> = Vec::new();
        samples.push(Sample { timestamp_ns: now, value });
        let metric = Metric { name, labels: Vec::new(), samples };
        assert(metric@.labels =~= Seq::empty());
        assert(metric@.samples =~= seq![SampleView { timestamp_ns: now, value: value@ }]);
        metric
    }
}

} // verus!

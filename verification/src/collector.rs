//! Putting a batch together from what a registry holds.

use crate::batch::{
    lemma_metric_views_push, metric_of, metric_views, Batch, BatchView, Metric, MetricView,
    Reading, Value, ValueView,
};
use crate::counters::counter_metrics;
use crate::double::Double;
use crate::gauges::gauge_metrics;
use crate::histogram::HistogramView;
use crate::histograms::histogram_metrics;
use vstd::prelude::*;

verus! {

/// The metric that reports the requests under way: a gauge named `inflight`.
pub open spec fn inflight_metric(level: i64, now: u64) -> MetricView {
    metric_of("inflight"@, now, ValueView::Gauge(Reading::Whole(level)))
}

/// The batch of a service's instance with the given metrics in this order:
/// those of the gauges, of the counters, of the histograms, and the one that
/// reports the requests under way.
pub open spec fn joined(
    service: Seq<char>,
    instance: Seq<char>,
    now: u64,
    gauges: Seq<MetricView>,
    counters: Seq<MetricView>,
    histograms: Seq<MetricView>,
    level: i64,
) -> BatchView {
    BatchView {
        service,
        instance,
        metrics: gauges + counters + histograms + seq![inflight_metric(level, now)],
    }
}

/// The batch that a collection at `now` yields from a registry that holds
/// the given gauges, counters and histograms and has `level` requests under
/// way. Every sample carries the same time.
pub open spec fn batch_of(
    service: Seq<char>,
    instance: Seq<char>,
    now: u64,
    gauges: Seq<(Seq<char>, Double)>,
    counters: Seq<(Seq<char>, u64)>,
    histograms: Seq<(Seq<char>, HistogramView)>,
    level: i64,
) -> BatchView {
    joined(
        service,
        instance,
        now,
        gauge_metrics(gauges, now),
        counter_metrics(counters, now),
        histogram_metrics(histograms, now),
        level,
    )
}

/// A batch holds one metric for each gauge, counter and histogram and one
/// more, the last, for the requests under way: it is never empty.
pub proof fn lemma_batch_size(
    service: Seq<char>,
    instance: Seq<char>,
    now: u64,
    gauges: Seq<(Seq<char>, Double)>,
    counters: Seq<(Seq<char>, u64)>,
    histograms: Seq<(Seq<char>, HistogramView)>,
    level: i64,
)
    ensures
        batch_of(service, instance, now, gauges, counters, histograms, level).metrics.len()
            == gauges.len() + counters.len() + histograms.len() + 1,
        batch_of(service, instance, now, gauges, counters, histograms, level).metrics.last()
            == inflight_metric(level, now),
{
}

/// A registry in which nothing was ever recorded yields a batch of exactly
/// one metric: the gauge `inflight`, which reads zero.
pub proof fn lemma_empty_registry_batch(service: Seq<char>, instance: Seq<char>, now: u64)
    ensures
        batch_of(service, instance, now, Seq::empty(), Seq::empty(), Seq::empty(), 0).metrics
            == seq![inflight_metric(0, now)],
        inflight_metric(0, now).name == "inflight"@,
        inflight_metric(0, now).samples == seq![
            crate::batch::SampleView {
                timestamp_ns: now,
                value: ValueView::Gauge(Reading::Whole(0)),
            },
        ],
{
    assert(batch_of(
        service,
        instance,
        now,
        Seq::empty(),
        Seq::empty(),
        Seq::empty(),
        0,
    ).metrics =~= seq![inflight_metric(0, now)]);
}

/// The batch of a service's instance from the metrics of its gauges, of its
/// counters and of its histograms, which keep this order, and from the
/// number of requests under way, which the last metric reports.
pub fn assemble(
    service: &str,
    instance: &str,
    now: u64,
    gauges: Vec<Metric>,
    counters: Vec<Metric>,
    histograms: Vec<Metric>,
    level: i64,
) -> (batch: Batch)
    ensures
        batch@ == joined(
            service@,
            instance@,
            now,
            metric_views(gauges@),
            metric_views(counters@),
            metric_views(histograms@),
            level,
        ),
{
    let mut metrics = gauges;
    let mut second = counters;
    let mut third = histograms;
    metrics.append(&mut second);
    metrics.append(&mut third);
    let last = Metric::single("inflight".to_owned(), now, Value::Gauge(Reading::Whole(level)));
    proof {
        lemma_metric_views_push(metrics@, last);
        assert(metric_views(metrics@) =~= metric_views(gauges@) + metric_views(counters@)
            + metric_views(histograms@));
    }
    metrics.push(last);
    assert(metric_views(metrics@) =~= metric_views(gauges@) + metric_views(counters@)
        + metric_views(histograms@) + seq![inflight_metric(level, now)]);
    Batch { service: service.to_owned(), instance: instance.to_owned(), metrics }
}

} // verus!

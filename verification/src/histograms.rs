//! Histograms by name: one is made when its name gets its first sample.

use crate::batch::{lemma_metric_views_push, metric_of, metric_views, Metric, MetricView, Value, ValueView};
use crate::double::Double;
use crate::histogram::{default_bounds, lemma_reset_clears, Histogram, HistogramView};
use crate::table::{distinct, holds, lemma_slot_is_unique, put, slot_of, value_of, Table};
use vstd::prelude::*;

verus! {

/// What a new histogram holds: the default bounds, and thirteen counts at zero.
pub open spec fn fresh() -> HistogramView {
    HistogramView { bounds: default_bounds(), counts: Seq::new(13, |i: int| 0u64) }
}

/// What the histogram under `name` holds: where the name has none yet, what a
/// new one holds.
pub open spec fn histogram_of(
    entries: Seq<(Seq<char>, HistogramView)>,
    name: Seq<char>,
) -> HistogramView {
    if holds(entries, name) {
        value_of(entries, name)
    } else {
        fresh()
    }
}

/// The histograms after a sample of `value` under `name`.
pub open spec fn sampled(
    entries: Seq<(Seq<char>, HistogramView)>,
    name: Seq<char>,
    value: Double,
) -> Seq<(Seq<char>, HistogramView)> {
    put(entries, name, histogram_of(entries, name).record(value))
}

/// The histograms with every count of each at zero.
pub open spec fn all_reset(entries: Seq<(Seq<char>, HistogramView)>) -> Seq<
    (Seq<char>, HistogramView),
> {
    Seq::new(entries.len(), |i: int| (entries[i].0, entries[i].1.reset()))
}

/// Whether every histogram of `entries` is valid.
pub open spec fn all_valid(entries: Seq<(Seq<char>, HistogramView)>) -> bool {
    forall|i: int| 0 <= i < entries.len() ==> (#[trigger] entries[i]).1.wf()
}

/// Named histograms as the names' characters with what each histogram holds.
pub open spec fn views(entries: Seq<(Seq<char>, Histogram)>) -> Seq<(Seq<char>, HistogramView)> {
    Seq::new(entries.len(), |i: int| (entries[i].0, entries[i].1@))
}

/// One metric for each histogram, in their order: its bounds and counts,
/// captured at `now`.
pub open spec fn histogram_metrics(entries: Seq<(Seq<char>, HistogramView)>, now: u64) -> Seq<
    MetricView,
> {
    Seq::new(
        entries.len(),
        |i: int|
            metric_of(
                entries[i].0,
                now,
                ValueView::Histogram { bounds: entries[i].1.bounds, counts: entries[i].1.counts },
            ),
    )
}

/// After a reset of all, a second one finds every count at zero and changes nothing.
pub proof fn lemma_all_reset_clears(entries: Seq<(Seq<char>, HistogramView)>)
    requires
        all_valid(entries),
    ensures
        all_valid(all_reset(entries)),
        forall|i: int| 0 <= i < entries.len() ==> (#[trigger] all_reset(entries)[i]).1.is_clear(),
        all_reset(all_reset(entries)) == all_reset(entries),
{
    assert forall|i: int| 0 <= i < entries.len() implies (#[trigger] all_reset(entries)[i]).1.wf()
        && all_reset(entries)[i].1.is_clear() && all_reset(all_reset(entries))[i] == all_reset(
        entries,
    )[i] by {
        assert(entries[i].1.wf());
        lemma_reset_clears(entries[i].1);
    }
    assert(all_reset(all_reset(entries)) =~= all_reset(entries));
}

/// A collection that follows another with no sample between them reports
/// every histogram again, with its bounds and with every count at zero.
pub proof fn lemma_next_collection_starts_at_zero(
    entries: Seq<(Seq<char>, HistogramView)>,
    now: u64,
    i: int,
)
    requires
        0 <= i < entries.len(),
    ensures
        histogram_metrics(all_reset(entries), now).len() == entries.len(),
        histogram_metrics(all_reset(entries), now)[i] == metric_of(
            entries[i].0,
            now,
            ValueView::Histogram {
                bounds: entries[i].1.bounds,
                counts: Seq::new(entries[i].1.counts.len(), |k: int| 0u64),
            },
        ),
{
}

proof fn lemma_views_lookup(entries: Seq<(Seq<char>, Histogram)>, name: Seq<char>)
    requires
        distinct(entries),
    ensures
        distinct(views(entries)),
        holds(views(entries), name) == holds(entries, name),
        holds(entries, name) ==> slot_of(views(entries), name) == slot_of(entries, name),
{
    let v = views(entries);
    assert forall|i: int, j: int| 0 <= i < j < v.len() implies (#[trigger] v[i]).0 != (
    #[trigger] v[j]).0 by {
        assert(entries[i].0 != entries[j].0);
    }
    if holds(entries, name) {
        let i = slot_of(entries, name);
        assert(v[i].0 == name);
        lemma_slot_is_unique(v, i);
    }
    if holds(v, name) {
        let i = slot_of(v, name);
        assert(entries[i].0 == name);
    }
}

/// The histograms of a registry. Each collection resets them.
pub struct Histograms {
    table: Table<Histogram>,
}

impl View for Histograms {
    type V = Seq<(Seq<char>, HistogramView)>;

    closed spec fn view(&self) -> Seq<(Seq<char>, HistogramView)> {
        views(self.table.entries())
    }
}

impl Histograms {
    /// The validity that every value of the type has.
    #[verifier::type_invariant]
    pub closed spec fn inv(self) -> bool {
        &&& self.table.wf()
        &&& all_valid(views(self.table.entries()))
    }

    /// No name occurs twice, and every histogram is valid.
    pub proof fn lemma_valid(&self)
        requires
            self.inv(),
        ensures
            distinct(self@),
            all_valid(self@),
    {
        self.table.lemma_distinct();
        lemma_views_lookup(self.table.entries(), Seq::empty());
    }

    /// No histograms.
    pub fn new() -> (histograms: Histograms)
        ensures
            histograms@ == Seq::<(Seq<char>, HistogramView)>::empty(),
    {
        let table: Table<Histogram> = Table::new();
        assert(views(table.entries()) =~= Seq::<(Seq<char>, HistogramView)>::empty());
        Histograms { table }
    }

    /// Counts a sample of `value` in the histogram `name`, which is made
    /// first, with the default bounds and after the others, where the name
    /// has none yet.
    pub fn record(&mut self, name: &str, value: Double)
        ensures
            final(self)@ == sampled(old(self)@, name@, value),
    {
        proof {
            use_type_invariant(&*self);
        }
        let mut table: Table<Histogram> = Table::new();
        assert(views(table.entries()) =~= Seq::<(Seq<char>, HistogramView)>::empty());
        std::mem::swap(&mut self.table, &mut table);
        let ghost before = table.entries();
        proof {
            table.lemma_distinct();
            lemma_views_lookup(before, name@);
        }
        match table.find(name) {
            Some(slot) => {
                let histogram = table.value_mut(slot);
                histogram.record(value);
                proof {
                    let after = table.entries();
                    assert(views(after) =~= sampled(views(before), name@, value));
                    assert forall|i: int| 0 <= i < after.len() implies (#[trigger] views(
                        after,
                    )[i]).1.wf() by {
                        if i != slot {
                            assert(views(before)[i].1.wf());
                        }
                    }
                }
            },
            None => {
                let mut histogram = Histogram::new();
                histogram.record(value);
                table.push(name.to_owned(), histogram);
                proof {
                    let after = table.entries();
                    assert(views(after) =~= sampled(views(before), name@, value));
                    assert forall|i: int| 0 <= i < after.len() implies (#[trigger] views(
                        after,
                    )[i]).1.wf() by {
                        if i < before.len() {
                            assert(views(before)[i].1.wf());
                        }
                    }
                }
            },
        }
        std::mem::swap(&mut self.table, &mut table);
    }

    /// Counts the time that a request took, in milliseconds, as a sample of
    /// the histogram `latency`.
    pub fn record_latency(&mut self, latency_ms: Double)
        ensures
            final(self)@ == sampled(old(self)@, "latency"@, latency_ms),
    {
        self.record("latency", latency_ms);
    }

    /// One metric for each histogram, in the order in which they were made:
    /// its bounds and its counts, captured at `now`. Every count of each
    /// histogram is put back to zero, so the next collection reports what
    /// came after this one.
    pub fn metrics_and_reset(&mut self, now: u64) -> (metrics: Vec<Metric>)
        ensures
            metric_views(metrics@) == histogram_metrics(old(self)@, now),
            final(self)@ == all_reset(old(self)@),
    {
        proof {
            use_type_invariant(&*self);
        }
        let mut table: Table<Histogram> = Table::new();
        assert(views(table.entries()) =~= Seq::<(Seq<char>, HistogramView)>::empty());
        std::mem::swap(&mut self.table, &mut table);
        let ghost before = views(table.entries());
        let mut metrics: Vec<Metric> = Vec::new();
        let n: usize = table.len();
        let mut i: usize = 0;
        assert(metric_views(metrics@) =~= histogram_metrics(before, now).take(0));
        while i < n
            invariant
                i <= n,
                n == before.len(),
                table.wf(),
                all_valid(before),
                views(table.entries()).len() == n,
                metric_views(metrics@) == histogram_metrics(before, now).take(i as int),
                forall|k: int| 0 <= k < i ==> views(table.entries())[k] == all_reset(before)[k],
                forall|k: int| i <= k < n ==> views(table.entries())[k] == before[k],
            decreases n - i,
        {
            let ghost entries = table.entries();
            let name = table.name(i).clone();
            assert(views(entries)[i as int] == before[i as int]);
            let histogram = table.value_mut(i);
            let (bounds, counts) = histogram.snapshot_and_reset();
            let metric = Metric::single(name, now, Value::Histogram { bounds, counts });
            proof {
                let after = table.entries();
                assert forall|k: int| 0 <= k < i + 1 implies views(after)[k] == all_reset(
                    before,
                )[k] by {
                    if k < i {
                        assert(views(entries)[k] == all_reset(before)[k]);
                    }
                }
                assert forall|k: int| i + 1 <= k < n implies views(after)[k] == before[k] by {
                    assert(views(entries)[k] == before[k]);
                }
                lemma_metric_views_push(metrics@, metric);
                assert(histogram_metrics(before, now).take(i as int).push(metric@)
                    =~= histogram_metrics(before, now).take(i + 1));
            }
            metrics.push(metric);
            i += 1;
        }
        proof {
            assert(histogram_metrics(before, now).take(n as int) =~= histogram_metrics(
                before,
                now,
            ));
            assert(views(table.entries()) =~= all_reset(before));
            lemma_all_reset_clears(before);
        }
        std::mem::swap(&mut self.table, &mut table);
        metrics
    }
}

} // verus!

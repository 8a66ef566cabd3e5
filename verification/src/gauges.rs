//! Gauges: under each name the value that was set last.

use crate::double::Double;
use crate::batch::{lemma_metric_views_push, metric_of, metric_views, Metric, MetricView, Reading, Value, ValueView};
use crate::table::{distinct, put, Table};
use vstd::prelude::*;

verus! {

/// One metric for each gauge, in their order: its value, captured at `now`.
pub open spec fn gauge_metrics(entries: Seq<(Seq<char>, Double)>, now: u64) -> Seq<MetricView> {
    Seq::new(
        entries.len(),
        |i: int| metric_of(entries[i].0, now, ValueView::Gauge(Reading::Real(entries[i].1))),
    )
}

/// The gauges of a registry. A gauge keeps no history: setting it again
/// overwrites it. No collection changes or removes one.
pub struct Gauges {
    table: Table<Double>,
}

impl View for Gauges {
    type V = Seq<(Seq<char>, Double)>;

    closed spec fn view(&self) -> Seq<(Seq<char>, Double)> {
        self.table.entries()
    }
}

impl Gauges {
    /// The validity that every value of the type has.
    #[verifier::type_invariant]
    pub closed spec fn inv(self) -> bool {
        self.table.wf()
    }

    /// No name occurs twice.
    pub proof fn lemma_distinct(&self)
        requires
            self.inv(),
        ensures
            distinct(self@),
    {
        self.table.lemma_distinct();
    }

    /// No gauges.
    pub fn new() -> (gauges: Gauges)
        ensures
            gauges@ == Seq::<(Seq<char>, Double)>::empty(),
    {
        Gauges { table: Table::new() }
    }

    /// Sets the gauge `name` to `value`: a new gauge comes after the others,
    /// one that exists keeps its place and loses its former value.
    pub fn set(&mut self, name: &str, value: Double)
        ensures
            final(self)@ == put(old(self)@, name@, value),
    {
        proof {
            use_type_invariant(&*self);
        }
        let mut table: Table<Double> = Table::new();
        std::mem::swap(&mut self.table, &mut table);
        match table.find(name) {
            Some(slot) => {
                let place = table.value_mut(slot);
                *place = value;
            },
            None => {
                table.push(name.to_owned(), value);
            },
        }
        std::mem::swap(&mut self.table, &mut table);
    }

    /// One metric for each gauge, in the order in which they were first set:
    /// its value as it is, captured at `now`. The gauges stay as they are.
    pub fn metrics(&self, now: u64) -> (metrics: Vec<Metric>)
        ensures
            metric_views(metrics@) == gauge_metrics(self@, now),
    {
        proof {
            use_type_invariant(self);
        }
        let mut metrics: Vec<Metric> = Vec::new();
        let n: usize = self.table.len();
        let mut i: usize = 0;
        assert(metric_views(metrics@) =~= gauge_metrics(self@, now).take(0));
        while i < n
            invariant
                i <= n,
                n == self@.len(),
                self.table.wf(),
                metric_views(metrics@) == gauge_metrics(self@, now).take(i as int),
            decreases n - i,
        {
            let value = Value::Gauge(Reading::Real(*self.table.value(i)));
            let metric = Metric::single(self.table.name(i).clone(), now, value);
            proof {
                lemma_metric_views_push(metrics@, metric);
                assert(gauge_metrics(self@, now).take(i as int).push(metric@) =~= gauge_metrics(
                    self@,
                    now,
                ).take(i + 1));
            }
            metrics.push(metric);
            i += 1;
        }
        assert(gauge_metrics(self@, now).take(n as int) =~= gauge_metrics(self@, now));
        metrics
    }
}

} // verus!

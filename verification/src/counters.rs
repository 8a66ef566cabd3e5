//! Counters: under each name the number of times it was counted.

use crate::batch::{lemma_metric_views_push, metric_of, metric_views, Metric, MetricView, Value, ValueView};
use crate::table::{distinct, holds, lemma_put, put, value_of, Table};
use vstd::prelude::*;

verus! {

/// The count under `name`: zero where the name was never counted.
pub open spec fn count_of(entries: Seq<(Seq<char>, u64)>, name: Seq<char>) -> u64 {
    if holds(entries, name) {
        value_of(entries, name)
    } else {
        0
    }
}

/// A count after one more call: one more, and at the largest value no more.
/// A counter never falls.
pub open spec fn raised(count: u64) -> u64 {
    if count == u64::MAX {
        u64::MAX
    } else {
        (count + 1) as u64
    }
}

/// The counters after `name` was counted once.
pub open spec fn counted(entries: Seq<(Seq<char>, u64)>, name: Seq<char>) -> Seq<
    (Seq<char>, u64),
> {
    put(entries, name, raised(count_of(entries, name)))
}

/// The counters after `name` was counted `times` times.
pub open spec fn counted_times(entries: Seq<(Seq<char>, u64)>, name: Seq<char>, times: nat) -> Seq<
    (Seq<char>, u64),
>
    decreases times,
{
    if times == 0 {
        entries
    } else {
        counted(counted_times(entries, name, (times - 1) as nat), name)
    }
}

/// The name of the counter for the errors of one kind.
pub open spec fn error_name(kind: Seq<char>) -> Seq<char> {
    "errors_"@ + kind
}

/// The counters after an error of `kind`: the counter of the kind was
/// counted, then the counter of all errors.
pub open spec fn with_error(entries: Seq<(Seq<char>, u64)>, kind: Seq<char>) -> Seq<
    (Seq<char>, u64),
> {
    counted(counted(entries, error_name(kind)), "errors_total"@)
}

/// One metric for each counter, in their order: its count, captured at `now`.
pub open spec fn counter_metrics(entries: Seq<(Seq<char>, u64)>, now: u64) -> Seq<MetricView> {
    Seq::new(
        entries.len(),
        |i: int| metric_of(entries[i].0, now, ValueView::Counter(entries[i].1)),
    )
}

/// Counting a name raises its count by one, up to the largest value, at
/// which it stays. No other count changes, and no count falls.
pub proof fn lemma_counted(entries: Seq<(Seq<char>, u64)>, name: Seq<char>)
    requires
        distinct(entries),
    ensures
        distinct(counted(entries, name)),
        count_of(counted(entries, name), name) == raised(count_of(entries, name)),
        forall|other: Seq<char>|
            other != name ==> count_of(counted(entries, name), other) == count_of(entries, other),
        forall|other: Seq<char>|
            count_of(counted(entries, name), other) >= count_of(entries, other),
{
    lemma_put(entries, name, raised(count_of(entries, name)));
    assert forall|other: Seq<char>| count_of(counted(entries, name), other) >= count_of(
        entries,
        other,
    ) by {
        if other != name {
            assert(count_of(counted(entries, name), other) == count_of(entries, other));
        }
    }
}

/// A counter holds the number of times it was counted: after `times` more
/// counts it has risen by exactly `times`, or stands at the largest value
/// where that would be more. No other counter has changed, and none has
/// fallen.
pub proof fn lemma_counter_counts_calls(entries: Seq<(Seq<char>, u64)>, name: Seq<char>, times: nat)
    requires
        distinct(entries),
    ensures
        distinct(counted_times(entries, name, times)),
        count_of(entries, name) + times <= u64::MAX ==> count_of(
            counted_times(entries, name, times),
            name,
        ) == count_of(entries, name) + times,
        count_of(entries, name) + times > u64::MAX ==> count_of(
            counted_times(entries, name, times),
            name,
        ) == u64::MAX,
        forall|other: Seq<char>|
            other != name ==> count_of(counted_times(entries, name, times), other) == count_of(
                entries,
                other,
            ),
        forall|other: Seq<char>|
            count_of(counted_times(entries, name, times), other) >= count_of(entries, other),
    decreases times,
{
    if times > 0 {
        let before = counted_times(entries, name, (times - 1) as nat);
        lemma_counter_counts_calls(entries, name, (times - 1) as nat);
        lemma_counted(before, name);
        assert forall|other: Seq<char>| count_of(counted_times(entries, name, times), other)
            >= count_of(entries, other) by {
            assert(count_of(counted(before, name), other) >= count_of(before, other));
        }
    }
}

/// The counter of a kind of error is the counter of all errors for one kind only.
pub proof fn lemma_error_names(kind: Seq<char>)
    ensures
        (error_name(kind) == "errors_total"@) == (kind == "total"@),
{
    reveal_strlit("errors_");
    reveal_strlit("errors_total");
    reveal_strlit("total");
    assert("errors_total"@ =~= "errors_"@ + "total"@);
    if error_name(kind) == "errors_total"@ {
        assert(kind =~= error_name(kind).subrange(7, error_name(kind).len() as int));
        assert("total"@ =~= "errors_total"@.subrange(7, 12));
    }
}

/// An error of a kind raises the counter of that kind and the counter of all
/// errors by exactly one each, and changes no other counter; no counter
/// falls. A counter that stands at the largest value stays there. (The kind
/// `total` is left out: its counter is the counter of all errors, which such
/// an error raises twice.)
pub proof fn lemma_error_counted_twice(entries: Seq<(Seq<char>, u64)>, kind: Seq<char>)
    requires
        distinct(entries),
        kind != "total"@,
    ensures
        distinct(with_error(entries, kind)),
        count_of(with_error(entries, kind), error_name(kind)) == raised(
            count_of(entries, error_name(kind)),
        ),
        count_of(with_error(entries, kind), "errors_total"@) == raised(
            count_of(entries, "errors_total"@),
        ),
        count_of(entries, error_name(kind)) < u64::MAX ==> count_of(
            with_error(entries, kind),
            error_name(kind),
        ) == count_of(entries, error_name(kind)) + 1,
        count_of(entries, "errors_total"@) < u64::MAX ==> count_of(
            with_error(entries, kind),
            "errors_total"@,
        ) == count_of(entries, "errors_total"@) + 1,
        forall|other: Seq<char>|
            other != error_name(kind) && other != "errors_total"@ ==> count_of(
                with_error(entries, kind),
                other,
            ) == count_of(entries, other),
        forall|other: Seq<char>|
            count_of(with_error(entries, kind), other) >= count_of(entries, other),
{
    lemma_error_names(kind);
    lemma_counted(entries, error_name(kind));
    lemma_counted(counted(entries, error_name(kind)), "errors_total"@);
    lemma_error_lets_none_fall(entries, kind);
}

/// Whatever its kind, an error lets no counter fall.
pub proof fn lemma_error_lets_none_fall(entries: Seq<(Seq<char>, u64)>, kind: Seq<char>)
    requires
        distinct(entries),
    ensures
        distinct(with_error(entries, kind)),
        forall|other: Seq<char>|
            count_of(with_error(entries, kind), other) >= count_of(entries, other),
{
    let first = counted(entries, error_name(kind));
    lemma_counted(entries, error_name(kind));
    lemma_counted(first, "errors_total"@);
    assert forall|other: Seq<char>| count_of(with_error(entries, kind), other) >= count_of(
        entries,
        other,
    ) by {
        assert(count_of(counted(first, "errors_total"@), other) >= count_of(first, other));
        assert(count_of(first, other) >= count_of(entries, other));
    }
}

/// The counters of a registry. Collecting them does not reset them.
pub struct Counters {
    table: Table<u64>,
}

impl View for Counters {
    type V = Seq<(Seq<char>, u64)>;

    closed spec fn view(&self) -> Seq<(Seq<char>, u64)> {
        self.table.entries()
    }
}

/// A count after one more call: one more, and at the largest value no more.
pub fn raise(count: u64) -> (next: u64)
    ensures
        next == raised(count),
{
    if count == u64::MAX {
        u64::MAX
    } else {
        count + 1
    }
}

/// The name of the counter for the errors of `kind`.
pub fn error_counter_name(kind: &str) -> (name: String)
    ensures
        name@ == error_name(kind@),
{
    let mut name: String = "errors_".to_owned();
    name.append(kind);
    name
}

impl Counters {
    /// The validity that every value of the type has.
    #[verifier::type_invariant]
    pub closed spec fn inv(self) -> bool {
        self.table.wf()
    }

    /// No name occurs twice.
    pub proof fn lemma_distinct(&self)
        requires
            self.inv(),
        ensures
            distinct(self@),
    {
        self.table.lemma_distinct();
    }

    /// No counters.
    pub fn new() -> (counters: Counters)
        ensures
            counters@ == Seq::<(Seq<char>, u64)>::empty(),
    {
        Counters { table: Table::new() }
    }

    /// Counts `name` once: a new counter starts at one and comes after the
    /// others, one that exists rises by one. A counter never falls: one that
    /// stands at the largest value stays there.
    pub fn inc(&mut self, name: &str)
        ensures
            final(self)@ == counted(old(self)@, name@),
    {
        proof {
            use_type_invariant(&*self);
        }
        let mut table: Table<u64> = Table::new();
        std::mem::swap(&mut self.table, &mut table);
        match table.find(name) {
            Some(slot) => {
                let place = table.value_mut(slot);
                let count: u64 = *place;
                *place = raise(count);
            },
            None => {
                table.push(name.to_owned(), 1);
            },
        }
        std::mem::swap(&mut self.table, &mut table);
    }

    /// Counts an error of `kind`: once under the name of its kind, once under
    /// `errors_total`.
    pub fn record_error(&mut self, kind: &str)
        ensures
            final(self)@ == with_error(old(self)@, kind@),
    {
        let name = error_counter_name(kind);
        self.inc(name.as_str());
        self.inc("errors_total");
    }

    /// One metric for each counter, in the order in which they were first
    /// counted: its running total, captured at `now`. The counters stay as
    /// they are: collecting does not reset them.
    pub fn metrics(&self, now: u64) -> (metrics: Vec<Metric>)
        ensures
            metric_views(metrics@) == counter_metrics(self@, now),
    {
        proof {
            use_type_invariant(self);
        }
        let mut metrics: Vec<Metric> = Vec::new();
        let n: usize = self.table.len();
        let mut i: usize = 0;
        assert(metric_views(metrics@) =~= counter_metrics(self@, now).take(0));
        while i < n
            invariant
                i <= n,
                n == self@.len(),
                self.table.wf(),
                metric_views(metrics@) == counter_metrics(self@, now).take(i as int),
            decreases n - i,
        {
            let value = Value::Counter(*self.table.value(i));
            let metric = Metric::single(self.table.name(i).clone(), now, value);
            proof {
                lemma_metric_views_push(metrics@, metric);
                assert(counter_metrics(self@, now).take(i as int).push(metric@)
                    =~= counter_metrics(self@, now).take(i + 1));
            }
            metrics.push(metric);
            i += 1;
        }
        assert(counter_metrics(self@, now).take(n as int) =~= counter_metrics(self@, now));
        metrics
    }
}

} // verus!

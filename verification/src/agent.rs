//! The agent: a registry that threads share, and the life of the cycle that
//! sends what the registry holds.
//!
//! Each part of the registry lies behind a lock of its own, which a function
//! here holds only while it reads or changes that part. What a part holds
//! when its lock is taken is up to the other threads, so these functions
//! state what holds whatever they find; what each does to the part that it
//! finds is stated by the function of that part which it calls.

use crate::batch::{metric_views, Batch};
use crate::clock::{timestamp_of, unix_nanos};
use crate::collector::{assemble, batch_of, lemma_batch_size};
use crate::config::Config;
use crate::counters::Counters;
use crate::cycle::{step, Action, Cycle, Event};
use crate::double::Double;
use crate::gauges::Gauges;
use crate::histogram::HistogramView;
use crate::histograms::{all_valid, Histograms};
use crate::inflight::Inflight;
use crate::sync::{held, lock, new_mutex, share};
use crate::table::distinct;
use std::sync::Arc;
use vstd::prelude::*;

verus! {

/// Where an agent is in its life.
#[derive(Clone, Copy, Debug, PartialEq, Eq, Structural)]
pub enum Phase {
    /// Made, and not started yet.
    Created,
    /// Started: the connection to the aggregator is being made.
    Started,
    /// Connected: the background cycle collects and sends.
    Running,
    /// Stopped, for good.
    Stopped,
}

impl Phase {
    /// The phase after a call of `start`: only an agent that was never
    /// started starts.
    pub open spec fn after_start(self) -> Phase {
        if self == Phase::Created {
            Phase::Started
        } else {
            self
        }
    }

    /// The phase after the attempt to connect has ended: a started agent runs
    /// if it is connected, and is back where it was before the start if not.
    pub open spec fn after_connect(self, up: bool) -> Phase {
        if self != Phase::Started {
            self
        } else if up {
            Phase::Running
        } else {
            Phase::Created
        }
    }

    /// The phase after a call of `stop`: only an agent that runs stops.
    pub open spec fn after_stop(self) -> Phase {
        if self == Phase::Running {
            Phase::Stopped
        } else {
            self
        }
    }
}

/// A stopped agent stays stopped whatever is called, and the one call of
/// `stop` that stops an agent is the only one that finds it running: the
/// shutdown signal is sent once.
pub proof fn lemma_stopped_for_good(phase: Phase, up: bool)
    ensures
        Phase::Stopped.after_start() == Phase::Stopped,
        Phase::Stopped.after_connect(up) == Phase::Stopped,
        Phase::Stopped.after_stop() == Phase::Stopped,
        phase.after_stop() != Phase::Running,
        phase.after_stop().after_stop() == phase.after_stop(),
{
}

/// Whether `batch` is what a collection yields for a service's instance from
/// some state of a registry at some time: from gauges, counters and
/// histograms that each hold a name once, the histograms valid.
pub open spec fn is_collected(batch: Batch, service: Seq<char>, instance: Seq<char>) -> bool {
    exists|
        now: u64,
        gauges: Seq<(Seq<char>, Double)>,
        counters: Seq<(Seq<char>, u64)>,
        histograms: Seq<(Seq<char>, HistogramView)>,
        level: i64,
    |
        {
            &&& batch@ == #[trigger] batch_of(
                service,
                instance,
                now,
                gauges,
                counters,
                histograms,
                level,
            )
            &&& distinct(gauges)
            &&& distinct(counters)
            &&& distinct(histograms)
            &&& all_valid(histograms)
        }
}

/// A batch that was collected holds at least one metric.
pub proof fn lemma_collected_is_not_empty(batch: Batch, service: Seq<char>, instance: Seq<char>)
    requires
        is_collected(batch, service, instance),
    ensures
        batch.metrics@.len() > 0,
{
    let (now, gauges, counters, histograms, level) = choose|
        now: u64,
        gauges: Seq<(Seq<char>, Double)>,
        counters: Seq<(Seq<char>, u64)>,
        histograms: Seq<(Seq<char>, HistogramView)>,
        level: i64,
    |
        {
            &&& batch@ == #[trigger] batch_of(
                service,
                instance,
                now,
                gauges,
                counters,
                histograms,
                level,
            )
            &&& distinct(gauges)
            &&& distinct(counters)
            &&& distinct(histograms)
            &&& all_valid(histograms)
        };
    lemma_batch_size(service, instance, now, gauges, counters, histograms, level);
    assert(metric_views(batch.metrics@).len() == batch.metrics@.len());
}

/// The registry: gauges, counters and histograms by name and the number of
/// requests under way, each of the four behind a lock of its own.
struct MetricRegistry {
    gauges: Arc<parking_lot::Mutex<Gauges>>,
    counters: Arc<parking_lot::Mutex<Counters>>,
    histograms: Arc<parking_lot::Mutex<Histograms>>,
    inflight: Arc<parking_lot::Mutex<Inflight>>,
}

impl MetricRegistry {
    fn new() -> MetricRegistry {
        MetricRegistry {
            gauges: Arc::new(new_mutex(Gauges::new())),
            counters: Arc::new(new_mutex(Counters::new())),
            histograms: Arc::new(new_mutex(Histograms::new())),
            inflight: Arc::new(new_mutex(Inflight::new())),
        }
    }

    /// One more handle to the same four locks.
    fn share(&self) -> (other: MetricRegistry)
        ensures
            other == *self,
    {
        MetricRegistry {
            gauges: share(&self.gauges),
            counters: share(&self.counters),
            histograms: share(&self.histograms),
            inflight: share(&self.inflight),
        }
    }

    /// Reads the clock, then takes each part's lock in turn, for as long as
    /// it takes to make the part's metrics.
    fn collect(&self, service: &str, instance: &str) -> (batch: Batch)
        ensures
            is_collected(batch, service@, instance@),
    {
        let now = timestamp_of(unix_nanos());
        let ghost mut gauges_found: Seq<(Seq<char>, Double)> = Seq::empty();
        let ghost mut counters_found: Seq<(Seq<char>, u64)> = Seq::empty();
        let ghost mut histograms_found: Seq<(Seq<char>, HistogramView)> = Seq::empty();
        let gauges = {
            let mut taken = lock(&self.gauges);
            let gauges = held(&mut taken);
            proof {
                use_type_invariant(&*gauges);
                gauges.lemma_distinct();
                gauges_found = gauges@;
            }
            gauges.metrics(now)
        };
        let counters = {
            let mut taken = lock(&self.counters);
            let counters = held(&mut taken);
            proof {
                use_type_invariant(&*counters);
                counters.lemma_distinct();
                counters_found = counters@;
            }
            counters.metrics(now)
        };
        let histograms = {
            let mut taken = lock(&self.histograms);
            let histograms = held(&mut taken);
            proof {
                use_type_invariant(&*histograms);
                histograms.lemma_valid();
                histograms_found = histograms@;
            }
            histograms.metrics_and_reset(now)
        };
        let level = {
            let mut taken = lock(&self.inflight);
            held(&mut taken).level()
        };
        let batch = assemble(service, instance, now, gauges, counters, histograms, level);
        assert(batch@ == batch_of(
            service@,
            instance@,
            now,
            gauges_found,
            counters_found,
            histograms_found,
            level,
        ));
        batch
    }
}

/// What the background cycle needs to collect: the names that a batch
/// carries, and the registry.
pub struct Collector {
    service: String,
    instance: String,
    registry: MetricRegistry,
}

impl Collector {
    /// The name of the service that the batches carry.
    pub closed spec fn service(&self) -> Seq<char> {
        self.service@
    }

    /// The instance that the batches carry.
    pub closed spec fn instance(&self) -> Seq<char> {
        self.instance@
    }

    /// Whether the collector reads the registry of `agent`: its handles are
    /// to the locks that the agent records under.
    pub closed spec fn reads(&self, agent: &Agent) -> bool {
        self.registry == agent.registry
    }

    /// Collects one batch: the gauges as they are, the counters as they are,
    /// the histograms, which are reset, and the number of requests under way,
    /// all with one timestamp read from the system clock.
    pub fn collect(&self) -> (batch: Batch)
        ensures
            is_collected(batch, self.service(), self.instance()),
    {
        self.registry.collect(self.service.as_str(), self.instance.as_str())
    }

    /// The timer fired. A cycle that waits collects a batch and is told to
    /// send it: a batch always holds the metric of the requests under way, so
    /// none is passed over. A cycle that is sending, or has ended, collects
    /// nothing.
    pub fn tick(&self, cycle: Cycle) -> (next: (Cycle, Action))
        ensures
            cycle == Cycle::Waiting ==> next.0 == Cycle::Sending && next.1 is Send && is_collected(
                next.1->Send_0,
                self.service(),
                self.instance(),
            ),
            cycle == Cycle::Sending ==> next == (Cycle::Sending, Action::Wait),
            cycle == Cycle::Exited ==> next == (Cycle::Exited, Action::Exit),
    {
        match cycle {
            Cycle::Waiting => {
                let batch = self.collect();
                proof {
                    lemma_collected_is_not_empty(batch, self.service(), self.instance());
                }
                step(Cycle::Waiting, Event::Tick(batch))
            },
            Cycle::Sending => (Cycle::Sending, Action::Wait),
            Cycle::Exited => (Cycle::Exited, Action::Exit),
        }
    }
}

/// The token of a request under way. Releasing it ends the request.
///
/// The guard does nothing when it is dropped: a guard that is dropped and
/// not released leaves its request counted as under way for good. Whoever
/// holds one calls `release` on every way out of the request.
#[must_use]
pub struct RequestGuard {
    inflight: Arc<parking_lot::Mutex<Inflight>>,
    histograms: Arc<parking_lot::Mutex<Histograms>>,
}

impl RequestGuard {
    /// Whether the guard is of a request of `agent`: its handles are to the
    /// count of requests under way and to the histograms of that agent, so
    /// that releasing it ends a request there and records the latency there.
    pub closed spec fn tracks(&self, agent: &Agent) -> bool {
        &&& self.inflight == agent.registry.inflight
        &&& self.histograms == agent.registry.histograms
    }

    /// Ends the request: one request fewer is under way, and the time that
    /// the request took, in milliseconds, is a sample of the histogram
    /// `latency`. Whether the request went well makes no difference.
    pub fn release(self, latency_ms: Double) {
        {
            let mut taken = lock(&self.inflight);
            held(&mut taken).leave();
        }
        {
            let mut taken = lock(&self.histograms);
            held(&mut taken).record_latency(latency_ms);
        }
    }
}

/// A telemetry agent: the registry that the application records into, and
/// the life of the cycle that sends what was recorded.
pub struct Agent {
    config: Config,
    registry: MetricRegistry,
    phase: Phase,
}

impl Agent {
    /// The phase of the agent.
    pub closed spec fn lifecycle(&self) -> Phase {
        self.phase
    }

    /// What the agent was made with.
    pub closed spec fn settings(&self) -> Config {
        self.config
    }

    /// An agent with an empty registry, not started.
    pub fn new(config: Config) -> (agent: Agent)
        ensures
            agent.lifecycle() == Phase::Created,
            agent.settings() == config,
    {
        Agent { config, registry: MetricRegistry::new(), phase: Phase::Created }
    }

    /// The phase of the agent.
    pub fn phase(&self) -> (phase: Phase)
        ensures
            phase == self.lifecycle(),
    {
        self.phase
    }

    /// What the agent was made with.
    pub fn config(&self) -> (config: &Config)
        ensures
            *config == self.settings(),
    {
        &self.config
    }

    /// Starts the agent. Where it returns `true` the agent was never started
    /// before: the caller now connects to the aggregator at the address of
    /// the configuration and reports the outcome to `connected`. Where it
    /// returns `false` nothing has changed.
    pub fn start(&mut self) -> (connect: bool)
        ensures
            connect == (old(self).lifecycle() == Phase::Created),
            final(self).lifecycle() == old(self).lifecycle().after_start(),
            final(self).settings() == old(self).settings(),
    {
        match self.phase {
            Phase::Created => {
                self.phase = Phase::Started;
                true
            },
            _ => false,
        }
    }

    /// Ends the start with the outcome of the attempt to connect. Connected,
    /// the agent runs, and the caller gets what the background cycle collects
    /// with. Not connected, the start has failed: the agent is as it was
    /// before the start, and the caller reports the failure. Nothing changes
    /// where no start is under way.
    pub fn connected(&mut self, up: bool) -> (collector: Option<Collector>)
        ensures
            final(self).lifecycle() == old(self).lifecycle().after_connect(up),
            final(self).settings() == old(self).settings(),
            collector is Some == (up && old(self).lifecycle() == Phase::Started),
            collector is Some ==> collector->0.service() == old(self).settings().service_name@
                && collector->0.instance() == old(self).settings().instance_id@,
            collector is Some ==> collector->0.reads(final(self)),
    {
        match self.phase {
            Phase::Started => {
                if up {
                    self.phase = Phase::Running;
                    Some(self.collector())
                } else {
                    self.phase = Phase::Created;
                    None
                }
            },
            _ => None,
        }
    }

    /// Stops the agent. Where it returns `true` the agent was running: the
    /// caller now sends the shutdown signal to the background cycle. Where it
    /// returns `false` nothing has changed, and there is no signal to send.
    pub fn stop(&mut self) -> (signal: bool)
        ensures
            signal == (old(self).lifecycle() == Phase::Running),
            final(self).lifecycle() == old(self).lifecycle().after_stop(),
            final(self).settings() == old(self).settings(),
    {
        match self.phase {
            Phase::Running => {
                self.phase = Phase::Stopped;
                true
            },
            _ => false,
        }
    }

    /// What a cycle collects with: the names of the configuration, and this
    /// agent's registry.
    pub fn collector(&self) -> (collector: Collector)
        ensures
            collector.service() == self.settings().service_name@,
            collector.instance() == self.settings().instance_id@,
            collector.reads(self),
    {
        Collector {
            service: self.config.service_name.clone(),
            instance: self.config.instance_id.clone(),
            registry: self.registry.share(),
        }
    }

    /// Sets the gauge `name` to `value`, under the lock of the gauges.
    pub fn set_gauge(&self, name: &str, value: Double) {
        let mut taken = lock(&self.registry.gauges);
        held(&mut taken).set(name, value);
    }

    /// Counts `name` once, under the lock of the counters.
    pub fn inc_counter(&self, name: &str) {
        let mut taken = lock(&self.registry.counters);
        held(&mut taken).inc(name);
    }

    /// Counts a sample of `value` in the histogram `name`, under the lock of
    /// the histograms.
    pub fn record_histogram(&self, name: &str, value: Double) {
        let mut taken = lock(&self.registry.histograms);
        held(&mut taken).record(name, value);
    }

    /// A request begins: one more is under way before this returns. The
    /// guard that comes back holds handles to this agent's count of requests
    /// under way and to its histograms. The caller releases it when the
    /// request has ended, however it ended.
    pub fn track_request(&self) -> (guard: RequestGuard)
        ensures
            guard.tracks(self),
    {
        {
            let mut taken = lock(&self.registry.inflight);
            held(&mut taken).enter();
        }
        RequestGuard {
            inflight: share(&self.registry.inflight),
            histograms: share(&self.registry.histograms),
        }
    }

    /// Counts an error of the kind `error_type`, under the lock of the counters.
    pub fn record_error(&self, error_type: &str) {
        let mut taken = lock(&self.registry.counters);
        held(&mut taken).record_error(error_type);
    }

    /// Collects one batch, as the background cycle does at each tick.
    pub fn collect(&self) -> (batch: Batch)
        ensures
            is_collected(
                batch,
                self.settings().service_name@,
                self.settings().instance_id@,
            ),
    {
        self.registry.collect(self.config.service_name.as_str(), self.config.instance_id.as_str())
    }
}

} // verus!

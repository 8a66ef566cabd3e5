//! An in-process telemetry accumulator: gauges, counters, histograms and
//! request tracking, gathered into batches for a remote aggregator.
//!
//! Numbers are carried as `Double`, the bit pattern of a binary64 value. The
//! parts of the registry (`Gauges`, `Counters`, `Histograms`, `Inflight`) say
//! exactly what each operation does to them; `Agent` puts each behind a lock
//! so that threads can share them.

pub mod agent;
pub mod batch;
pub mod clock;
pub mod collector;
pub mod config;
pub mod counters;
pub mod cycle;
pub mod double;
pub mod gauges;
pub mod histogram;
pub mod histograms;
pub mod inflight;
pub mod sync;
pub mod table;

pub use crate::agent::{Agent, Collector, Phase, RequestGuard};
pub use crate::batch::{Batch, Metric, Reading, Sample, Value};
pub use crate::config::{generate_instance_id, Config};
pub use crate::double::Double;
pub use crate::histogram::Histogram;

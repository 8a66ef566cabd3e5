//! The decisions of the background cycle that sends a batch at each tick
//! until it is told to stop.
//!
//! Whoever runs the cycle waits for the timer and for the shutdown signal,
//! hands each event to `step`, and does what the action says.

use crate::batch::Batch;
use vstd::prelude::*;

verus! {

/// Where the cycle is.
#[derive(Clone, Copy, Debug, PartialEq, Eq, Structural)]
pub enum Cycle {
    /// Waiting for the next tick or for the shutdown signal.
    Waiting,
    /// A batch is being sent: no other event is looked at until that has ended.
    Sending,
    /// The cycle has ended.
    Exited,
}

/// What happened.
#[derive(Debug)]
pub enum Event {
    /// The timer fired, and this batch was collected.
    Tick(Batch),
    /// The batch was sent.
    Sent,
    /// Sending the batch failed.
    SendFailed,
    /// The shutdown signal came.
    Shutdown,
}

/// What is to be done.
#[derive(Debug)]
pub enum Action {
    /// Wait for the next event.
    Wait,
    /// Send this batch, once, and report how that ended.
    Send(Batch),
    /// Log that sending failed, then wait for the next event. The batch is
    /// lost: it is neither kept nor sent again.
    LogFailure,
    /// Leave the cycle.
    Exit,
}

/// The state and the action that follow an event.
///
/// While waiting, a tick with a batch that holds a metric starts a send; one
/// with an empty batch is passed over. A send ends in waiting again, whether
/// it failed or not. The shutdown signal ends the cycle at once. A tick that
/// comes while a batch is being sent is ignored, and once the cycle has
/// ended it stays so.
pub open spec fn step_spec(cycle: Cycle, event: Event) -> (Cycle, Action) {
    match cycle {
        Cycle::Exited => (Cycle::Exited, Action::Exit),
        Cycle::Waiting => match event {
            Event::Tick(batch) => if batch.metrics@.len() > 0 {
                (Cycle::Sending, Action::Send(batch))
            } else {
                (Cycle::Waiting, Action::Wait)
            },
            Event::Shutdown => (Cycle::Exited, Action::Exit),
            Event::Sent => (Cycle::Waiting, Action::Wait),
            Event::SendFailed => (Cycle::Waiting, Action::Wait),
        },
        Cycle::Sending => match event {
            Event::Sent => (Cycle::Waiting, Action::Wait),
            Event::SendFailed => (Cycle::Waiting, Action::LogFailure),
            Event::Shutdown => (Cycle::Exited, Action::Exit),
            Event::Tick(_) => (Cycle::Sending, Action::Wait),
        },
    }
}

/// The state and the action that follow `event` in the state `cycle`.
pub fn step(cycle: Cycle, event: Event) -> (next: (Cycle, Action))
    ensures
        next == step_spec(cycle, event),
{
    match cycle {
        Cycle::Exited => (Cycle::Exited, Action::Exit),
        Cycle::Waiting => match event {
            Event::Tick(batch) => {
                if batch.metrics.len() > 0 {
                    (Cycle::Sending, Action::Send(batch))
                } else {
                    (Cycle::Waiting, Action::Wait)
                }
            },
            Event::Shutdown => (Cycle::Exited, Action::Exit),
            Event::Sent => (Cycle::Waiting, Action::Wait),
            Event::SendFailed => (Cycle::Waiting, Action::Wait),
        },
        Cycle::Sending => match event {
            Event::Sent => (Cycle::Waiting, Action::Wait),
            Event::SendFailed => (Cycle::Waiting, Action::LogFailure),
            Event::Shutdown => (Cycle::Exited, Action::Exit),
            Event::Tick(_) => (Cycle::Sending, Action::Wait),
        },
    }
}

/// The cycle never leaves the state `Exited`, and never sends from it.
pub proof fn lemma_exit_is_final(event: Event)
    ensures
        step_spec(Cycle::Exited, event) == (Cycle::Exited, Action::Exit),
{
}

/// A failed send changes nothing but for a line in the log: the cycle waits
/// for the next tick as after a send that went well.
pub proof fn lemma_failure_is_passed_over()
    ensures
        step_spec(Cycle::Sending, Event::SendFailed).0 == step_spec(Cycle::Sending, Event::Sent).0,
        step_spec(Cycle::Sending, Event::SendFailed).0 == Cycle::Waiting,
{
}

} // verus!

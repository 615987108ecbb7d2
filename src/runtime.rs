use vstd::prelude::*;

use crate::error::Error;

verus! {

/// Time the consumer side waits for the worker after asking it to stop.
pub const SHUTDOWN_TIMEOUT_MS: u64 = 5000;

/// Interval between two checks of whether the worker has finished.
pub const SHUTDOWN_POLL_MS: u64 = 10;

/// How the worker thread ended, as seen at the join point.
#[derive(Debug, PartialEq, Eq)]
pub enum WorkerExit {
    /// The worker loop returned this result.
    Returned(Result<(), Error>),
    /// The worker unwound; the string describes the panic payload.
    Panicked(String),
}

/// What the shutdown wait does after one check of the worker.
#[derive(Debug, PartialEq, Eq)]
pub enum ShutdownStep {
    /// The worker is still running and time is left: sleep, then check again.
    Wait,
    /// The worker has finished: join it.
    Join,
    /// Give up waiting and report this result.
    Finish(Result<(), Error>),
}

/// Milliseconds in one tick at `frequency_hz` ticks per second (integer division).
pub open spec fn period_ms_spec(frequency_hz: u64) -> int {
    1000int / (frequency_hz as int)
}

/// Time left in the tick budget after `spent` of `period`: never negative.
pub open spec fn remaining_spec(period: u64, spent: u64) -> int {
    if spent < period {
        period - spent
    } else {
        0
    }
}

/// The step the shutdown wait takes after one check.
pub open spec fn poll_spec(finished: bool, waited_ms: u64) -> ShutdownStep {
    if finished {
        ShutdownStep::Join
    } else if waited_ms >= SHUTDOWN_TIMEOUT_MS {
        ShutdownStep::Finish(Err(Error::ShutdownTimeout { timeout_ms: SHUTDOWN_TIMEOUT_MS }))
    } else {
        ShutdownStep::Wait
    }
}

/// The run's result once the worker has been joined.
pub open spec fn joined_spec(exit: WorkerExit) -> Result<(), Error> {
    match exit {
        WorkerExit::Returned(r) => r,
        WorkerExit::Panicked(description) => Err(Error::SimulationPanic(description)),
    }
}

/// A worker that is still busy when the shutdown window has run out makes
/// the run end with `ShutdownTimeout`; while time is left the wait goes on.
pub proof fn lemma_unresponsive_worker_times_out(waited_ms: u64)
    ensures
        waited_ms >= SHUTDOWN_TIMEOUT_MS ==> poll_spec(false, waited_ms) == ShutdownStep::Finish(
            Err(Error::ShutdownTimeout { timeout_ms: SHUTDOWN_TIMEOUT_MS }),
        ),
        waited_ms < SHUTDOWN_TIMEOUT_MS ==> poll_spec(false, waited_ms) == ShutdownStep::Wait,
{
}

/// A worker that panicked is joined as soon as it is seen finished, at any
/// point of the wait, and the run ends with `SimulationPanic` carrying the
/// description of the panic payload.
pub proof fn lemma_panicked_worker_reported(waited_ms: u64, description: String)
    ensures
        poll_spec(true, waited_ms) == ShutdownStep::Join,
        joined_spec(WorkerExit::Panicked(description)) == Err::<(), Error>(
            Error::SimulationPanic(description),
        ),
{
}

/// Orchestrates one fixed-frequency worker and one consumer loop.
///
/// The manager holds the decisions of the run: how long a tick lasts, how long
/// to sleep after it, and how the wait for the worker ends at shutdown.
#[derive(Debug, Clone, Copy, PartialEq, Eq, Default)]
pub struct MultiAgentRuntimeManager;

impl MultiAgentRuntimeManager {
    /// Length in milliseconds of one tick at `frequency_hz` ticks per second.
    pub fn tick_period_ms(frequency_hz: u64) -> (r: u64)
        requires
            frequency_hz > 0,
        ensures
            r == period_ms_spec(frequency_hz),
    {
        1000 / frequency_hz
    }

    /// Time to sleep after a tick that took `spent` out of a budget of `period`
    /// (any one unit): the remainder, or zero when the tick overran, with no
    /// catch-up for missed ticks.
    pub fn sleep_after_tick(period: u64, spent: u64) -> (r: u64)
        ensures
            r == remaining_spec(period, spent),
            r <= period,
    {
        if spent < period {
            period - spent
        } else {
            0
        }
    }

    /// One check of the shutdown wait, `waited_ms` after the stop flag was set.
    pub fn poll_worker(finished: bool, waited_ms: u64) -> (r: ShutdownStep)
        ensures
            r == poll_spec(finished, waited_ms),
    {
        if finished {
            ShutdownStep::Join
        } else if waited_ms >= SHUTDOWN_TIMEOUT_MS {
            ShutdownStep::Finish(Err(Error::ShutdownTimeout { timeout_ms: SHUTDOWN_TIMEOUT_MS }))
        } else {
            ShutdownStep::Wait
        }
    }

    /// The run's result from the way the worker ended: its own result, or a
    /// panic turned into `SimulationPanic`.
    pub fn joined(exit: WorkerExit) -> (r: Result<(), Error>)
        ensures
            r == joined_spec(exit),
    {
        match exit {
            WorkerExit::Returned(r) => r,
            WorkerExit::Panicked(description) => Err(Error::SimulationPanic(description)),
        }
    }
}

} // verus!

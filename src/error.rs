use vstd::prelude::*;

verus! {

/// Failures of the runtime and of its message channels.
#[derive(Debug, Clone, PartialEq, Eq)]
pub enum Error {
    /// The worker thread ended by a panic; holds a description of its payload.
    SimulationPanic(String),
    /// The worker did not stop within `timeout_ms` milliseconds after being asked to.
    ShutdownTimeout { timeout_ms: u64 },
    /// The presentation layer failed to start or to run.
    Gui(String),
    /// The channel already holds `capacity` messages.
    MessageChannelFull { capacity: usize },
    /// Every handle of the other side of the channel has been dropped.
    MessageChannelDisconnected,
}

} // verus!

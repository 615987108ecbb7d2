use vstd::prelude::*;

use crate::error::Error;

verus! {

/// A simulation driven by the runtime on a dedicated worker thread.
///
/// Each tick the worker hands `update` the latest configuration published by
/// the presentation side, the messages it sent since the previous tick and
/// the time elapsed; `update` returns the snapshot to publish.
pub trait MultiAgentSimulation: Sized {
    /// Snapshot published to the presentation side after every tick.
    type SimulationData: Default + Clone;

    /// Configuration published by the presentation side.
    type GuiData: Default + Clone;

    /// Messages from the presentation side to the simulation.
    type MessageFromGui: Clone;

    /// Messages from the simulation to the presentation side.
    type MessageToGui: Clone;

    /// Target number of ticks per second.
    const FREQUENCY_IN_HZ: u64 = 30;

    /// Builds the simulation from the initial configuration.
    fn new(initial_gui_data: Self::GuiData) -> Result<Self, Error>;

    /// Advances the simulation by one tick of `delta_nanos` nanoseconds and
    /// returns the snapshot to publish; `send_message_to_gui` forwards a
    /// message to the presentation side, dropping it when the channel is full.
    fn update<F: Fn(Self::MessageToGui)>(
        &mut self,
        gui_data: Self::GuiData,
        messages: Vec<Self::MessageFromGui>,
        delta_nanos: u64,
        send_message_to_gui: F,
    ) -> Result<&Self::SimulationData, Error>;
}

} // verus!

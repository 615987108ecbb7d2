use vstd::prelude::*;

use crate::error::Error;
use crate::life::{next_generation, Cell, GameOfLife};
use crate::simulation::MultiAgentSimulation;

verus! {

/// What the presentation side asks of the Game of Life simulation.
#[derive(Debug, Clone)]
pub enum MessageFromGuiToSimulator {
    /// Bring these cells to life.
    SpawnCells(Vec<Cell>),
    /// Kill these cells.
    RemoveCells(Vec<Cell>),
    /// Kill every cell and restart the generation count.
    Reset,
    /// Bring a pattern's cells to life, already moved to where it is placed.
    PlacePattern(Vec<Cell>),
}

/// A message from the Game of Life simulation to the presentation side.
/// The simulation sends none: the board itself is published each tick.
#[derive(Debug, Clone, Copy, PartialEq, Eq)]
pub struct MessageFromSimulatorToGui;

/// The presentation side's settings for the Game of Life simulation.
#[derive(Debug, Clone, Copy, PartialEq, Eq)]
pub struct GameOfLifeConfig {
    /// While paused, no generation is computed.
    pub paused: bool,
    /// Nanoseconds per generation; 0 stops the board as pausing does.
    pub tick_nanos: u64,
}

impl Default for GameOfLifeConfig {
    /// Paused, at two generations per second.
    fn default() -> (r: Self)
        ensures
            r.paused,
            r.tick_nanos == 500_000_000,
    {
        GameOfLifeConfig { paused: true, tick_nanos: 500_000_000 }
    }
}

/// The live cells and generation after one message.
pub open spec fn after_message(live: Set<Cell>, generation: u64, m: MessageFromGuiToSimulator) -> (Set<Cell>, u64) {
    match m {
        MessageFromGuiToSimulator::SpawnCells(cells) => (live + cells@.to_set(), generation),
        MessageFromGuiToSimulator::PlacePattern(cells) => (live + cells@.to_set(), generation),
        MessageFromGuiToSimulator::RemoveCells(cells) => (live - cells@.to_set(), generation),
        MessageFromGuiToSimulator::Reset => (Set::empty(), 0),
    }
}

/// The live cells and generation after `messages`, in order.
pub open spec fn after_messages(live: Set<Cell>, generation: u64, messages: Seq<MessageFromGuiToSimulator>) -> (Set<Cell>, u64)
    decreases messages.len(),
{
    if messages.len() == 0 {
        (live, generation)
    } else {
        let (l, g) = after_message(live, generation, messages[0]);
        after_messages(l, g, messages.drop_first())
    }
}

/// `live` after `k` generations.
pub open spec fn generations(live: Set<Cell>, k: nat) -> Set<Cell>
    decreases k,
{
    if k == 0 {
        live
    } else {
        next_generation(generations(live, (k - 1) as nat))
    }
}

/// `generation` advanced by `k`, staying at `u64::MAX` once there.
pub open spec fn counted(generation: u64, k: nat) -> u64 {
    if generation + k > u64::MAX {
        u64::MAX
    } else {
        (generation + k) as u64
    }
}

/// The Game of Life on the worker thread: applies the presentation side's
/// messages, then computes as many generations as the elapsed time allows,
/// carrying the remainder over to the next tick.
#[derive(Debug)]
pub struct GameOfLifeSimulator {
    data: GameOfLife,
    accumulated_nanos: u64,
}

impl GameOfLifeSimulator {
    /// The board.
    pub closed spec fn board(&self) -> GameOfLife {
        self.data
    }

    /// Time carried over towards the next generation.
    pub closed spec fn carried(&self) -> u64 {
        self.accumulated_nanos
    }

    /// A simulator on the default board with no time carried over.
    pub fn start() -> (r: Self)
        ensures
            r.board().live() == GameOfLife::default_cells(),
            r.board().generation == 0,
            r.carried() == 0,
    {
        GameOfLifeSimulator { data: GameOfLife::default(), accumulated_nanos: 0 }
    }

    /// Applies `messages` in order; then, unless paused or stopped, adds
    /// `delta_nanos` to the time carried over and computes one generation
    /// for each whole `tick_nanos` in it, keeping the remainder.
    pub fn advance(&mut self, config: GameOfLifeConfig, messages: Vec<MessageFromGuiToSimulator>, delta_nanos: u64)
        ensures
            ({
                let (live, generation) = after_messages(old(self).board().live(), old(self).board().generation, messages@);
                if config.paused || config.tick_nanos == 0 {
                    &&& final(self).board().live() == live
                    &&& final(self).board().generation == generation
                    &&& final(self).carried() == old(self).carried()
                } else {
                    let total = old(self).carried() + delta_nanos;
                    let k = (total / (config.tick_nanos as int)) as nat;
                    &&& final(self).board().live() == generations(live, k)
                    &&& final(self).board().generation == counted(generation, k)
                    &&& final(self).carried() == total % (config.tick_nanos as int)
                }
            }),
    {
        let ghost goal = after_messages(self.data.live(), self.data.generation, messages@);
        let mut rest = messages;
        assert(rest@ =~= messages@.skip(0));
        while rest.len() > 0
            invariant
                goal == after_messages(self.data.live(), self.data.generation, rest@),
                self.accumulated_nanos == old(self).accumulated_nanos,
            decreases rest.len(),
        {
            let m = rest.remove(0);
            match m {
                MessageFromGuiToSimulator::SpawnCells(cells) => self.data.spawn(cells),
                MessageFromGuiToSimulator::PlacePattern(cells) => self.data.spawn(cells),
                MessageFromGuiToSimulator::RemoveCells(cells) => self.data.remove(cells),
                MessageFromGuiToSimulator::Reset => {
                    self.data.cells = Vec::new();
                    self.data.generation = 0;
                    assert(self.data.live() =~= Set::<Cell>::empty());
                },
            }
        }
        if config.paused || config.tick_nanos == 0 {
            return;
        }
        let ghost live = self.data.live();
        let ghost generation = self.data.generation;
        let tick = config.tick_nanos as u128;
        let mut acc: u128 = self.accumulated_nanos as u128 + delta_nanos as u128;
        let ghost total = acc as int;
        let mut done: u128 = 0;
        while acc >= tick
            invariant
                tick == config.tick_nanos,
                tick > 0,
                acc + done * tick == total,
                total <= 2 * (u64::MAX as int),
                done <= total,
                0 <= acc,
                self.data.live() == generations(live, done as nat),
                self.data.generation == counted(generation, done as nat),
            decreases acc,
        {
            self.data.process_tick();
            if self.data.generation < u64::MAX {
                self.data.generation = self.data.generation + 1;
            }
            acc = acc - tick;
            done = done + 1;
            assert(acc + done * tick == total && done <= total) by (nonlinear_arith)
                requires
                    acc + tick + (done - 1) * tick == total,
                    tick >= 1,
                    acc >= 0,
                    done >= 1,
            ;
        }
        proof {
            assert(total / (tick as int) == done as int && total % (tick as int) == acc as int) by (nonlinear_arith)
                requires
                    acc + done * tick == total,
                    0 <= acc < tick,
                    0 <= done,
            ;
        }
        self.accumulated_nanos = acc as u64;
    }
}

impl MultiAgentSimulation for GameOfLifeSimulator {
    type SimulationData = GameOfLife;

    type GuiData = GameOfLifeConfig;

    type MessageFromGui = MessageFromGuiToSimulator;

    type MessageToGui = MessageFromSimulatorToGui;

    fn new(_initial_gui_data: GameOfLifeConfig) -> Result<Self, Error> {
        Ok(GameOfLifeSimulator::start())
    }

    fn update<F: Fn(MessageFromSimulatorToGui)>(
        &mut self,
        gui_data: GameOfLifeConfig,
        messages: Vec<MessageFromGuiToSimulator>,
        delta_nanos: u64,
        _send_message_to_gui: F,
    ) -> Result<&GameOfLife, Error> {
        self.advance(gui_data, messages, delta_nanos);
        Ok(&self.data)
    }
}

} // verus!

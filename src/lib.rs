//! Concurrency core for fixed-rate simulation workers: bounded message
//! channels, snapshot cells and the decisions of the run lifecycle, with the
//! Game of Life board and its RLE pattern files.

mod channel;
mod collection;
mod error;
mod life;
mod life_sim;
mod pattern;
mod runtime;
mod shared;
mod simulation;
mod text;

pub use channel::{MessageChannel, MessageReceiver, MessageSender, MAX_CAPACITY};
pub use collection::{is_rle_file, key_order, name_matches, PatternCollection, PatternFile};
pub use error::Error;
pub use life::{Cell, GameOfLife};
pub use life_sim::{
    GameOfLifeConfig, GameOfLifeSimulator, MessageFromGuiToSimulator, MessageFromSimulatorToGui,
};
pub use pattern::{ParseError, Pattern};
pub use runtime::{
    MultiAgentRuntimeManager, ShutdownStep, WorkerExit, SHUTDOWN_POLL_MS, SHUTDOWN_TIMEOUT_MS,
};
pub use shared::{GuardArc, Shared};
pub use simulation::MultiAgentSimulation;

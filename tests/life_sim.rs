use multi_agent::{
    GameOfLifeConfig, GameOfLifeSimulator, MessageFromGuiToSimulator, MultiAgentSimulation,
};

fn sorted(mut cells: Vec<(i64, i64)>) -> Vec<(i64, i64)> {
    cells.sort();
    cells
}

fn running(tick_nanos: u64) -> GameOfLifeConfig {
    GameOfLifeConfig { paused: false, tick_nanos }
}

#[test]
fn default_config_is_paused_at_two_per_second() {
    let config = GameOfLifeConfig::default();
    assert!(config.paused);
    assert_eq!(config.tick_nanos, 500_000_000);
}

#[test]
fn paused_simulation_only_applies_messages() {
    let mut sim = GameOfLifeSimulator::new(GameOfLifeConfig::default()).unwrap();
    let messages = vec![
        MessageFromGuiToSimulator::Reset,
        MessageFromGuiToSimulator::SpawnCells(vec![(0, 0), (1, 0), (2, 0)]),
        MessageFromGuiToSimulator::RemoveCells(vec![(2, 0)]),
        MessageFromGuiToSimulator::PlacePattern(vec![(9, 9)]),
    ];
    let board = sim.update(GameOfLifeConfig::default(), messages, 10_000_000_000, |_| {}).unwrap();
    assert_eq!(sorted(board.cells.clone()), vec![(0, 0), (1, 0), (9, 9)]);
    assert_eq!(board.generation, 0);
}

#[test]
fn elapsed_time_becomes_whole_generations() {
    let mut sim = GameOfLifeSimulator::new(GameOfLifeConfig::default()).unwrap();
    let blinker = vec![
        MessageFromGuiToSimulator::Reset,
        MessageFromGuiToSimulator::SpawnCells(vec![(0, 1), (1, 1), (2, 1)]),
    ];
    let board = sim.update(running(100), blinker, 250, |_| {}).unwrap();
    assert_eq!(board.generation, 2);
    assert_eq!(sorted(board.cells.clone()), vec![(0, 1), (1, 1), (2, 1)]);

    let board = sim.update(running(100), Vec::new(), 60, |_| {}).unwrap();
    assert_eq!(board.generation, 3);
    assert_eq!(sorted(board.cells.clone()), vec![(1, 0), (1, 1), (1, 2)]);
}

#[test]
fn zero_tick_length_stops_the_board() {
    let mut sim = GameOfLifeSimulator::new(GameOfLifeConfig::default()).unwrap();
    let board = sim.update(running(0), Vec::new(), 1_000, |_| {}).unwrap();
    assert_eq!(board.generation, 0);
}

#[test]
fn reset_restarts_generation_count() {
    let mut sim = GameOfLifeSimulator::new(GameOfLifeConfig::default()).unwrap();
    sim.update(running(10), Vec::new(), 30, |_| {}).unwrap();
    let board = sim
        .update(GameOfLifeConfig::default(), vec![MessageFromGuiToSimulator::Reset], 0, |_| {})
        .unwrap();
    assert_eq!(board.generation, 0);
    assert!(board.cells.is_empty());
}

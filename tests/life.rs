use multi_agent::{key_order, GameOfLife};

fn sorted(mut cells: Vec<(i64, i64)>) -> Vec<(i64, i64)> {
    cells.sort();
    cells
}

#[test]
fn default_board_is_an_r_pentomino() {
    let board = GameOfLife::default();
    assert_eq!(board.generation, 0);
    assert_eq!(sorted(board.cells), vec![(1, -3), (2, -4), (2, -3), (2, -2), (3, -4)]);
}

#[test]
fn spawn_adds_cells_once() {
    let mut board = GameOfLife { cells: vec![], generation: 7 };
    board.spawn(vec![(0, 0), (5, 5), (0, 0)]);
    board.spawn(vec![(5, 5), (-1, 2)]);
    assert_eq!(sorted(board.cells.clone()), vec![(-1, 2), (0, 0), (5, 5)]);
    assert_eq!(board.generation, 7);
}

#[test]
fn remove_kills_only_listed_cells() {
    let mut board = GameOfLife::default();
    board.remove(vec![(2, -3), (100, 100)]);
    assert_eq!(sorted(board.cells.clone()), vec![(1, -3), (2, -4), (2, -2), (3, -4)]);
    board.remove(vec![]);
    assert_eq!(board.cells.len(), 4);
}

#[test]
fn key_order_is_stable() {
    let keys: Vec<Vec<char>> = ["b", "a", "b", "ab", ""].iter().map(|k| k.chars().collect()).collect();
    assert_eq!(key_order(&keys), vec![4, 1, 3, 0, 2]);
}

#[test]
fn blinker_oscillates() {
    let mut board = GameOfLife { cells: vec![(0, 1), (1, 1), (2, 1)], generation: 0 };
    board.process_tick();
    assert_eq!(sorted(board.cells.clone()), vec![(1, 0), (1, 1), (1, 2)]);
    board.process_tick();
    assert_eq!(sorted(board.cells.clone()), vec![(0, 1), (1, 1), (2, 1)]);
    assert_eq!(board.generation, 0);
}

#[test]
fn block_is_still_and_lonely_cell_dies() {
    let mut block = GameOfLife { cells: vec![(0, 0), (0, 1), (1, 0), (1, 1)], generation: 3 };
    block.process_tick();
    assert_eq!(sorted(block.cells.clone()), vec![(0, 0), (0, 1), (1, 0), (1, 1)]);

    let mut lonely = GameOfLife { cells: vec![(5, 5)], generation: 0 };
    lonely.process_tick();
    assert!(lonely.cells.is_empty());
}

#[test]
fn glider_moves_after_four_generations() {
    let mut board = GameOfLife { cells: vec![(1, 0), (2, 1), (0, 2), (1, 2), (2, 2)], generation: 0 };
    let start = sorted(board.cells.clone());
    for _ in 0..4 {
        board.process_tick();
    }
    let moved: Vec<(i64, i64)> = start.iter().map(|&(x, y)| (x + 1, y + 1)).collect();
    assert_eq!(sorted(board.cells.clone()), moved);
}

#[test]
fn r_pentomino_first_generation() {
    let mut board = GameOfLife::default();
    board.process_tick();
    assert_eq!(
        sorted(board.cells.clone()),
        vec![(1, -4), (1, -3), (1, -2), (2, -4), (2, -2), (3, -4)]
    );
}

#[test]
fn cells_on_the_grid_edge_do_not_overflow() {
    let mut board = GameOfLife {
        cells: vec![(i64::MAX, 0), (i64::MAX, 1), (i64::MAX, 2)],
        generation: 0,
    };
    board.process_tick();
    assert_eq!(sorted(board.cells.clone()), vec![(i64::MAX - 1, 1), (i64::MAX, 1)]);
}

#[test]
fn remove_drops_listed_duplicates() {
    let mut board = GameOfLife { cells: vec![(1, 1), (1, 1), (2, 2)], generation: 0 };
    board.remove(vec![(2, 2)]);
    assert_eq!(board.cells, vec![(1, 1)]);
}

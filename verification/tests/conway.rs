use conway_rs::conway::{Cell, ConwayGrid};
use conway_rs::grid::Grid;

/// The 5x5 board with alive cells at (2,0), (1,1), (3,1) and (1,3).
fn fixture() -> ConwayGrid {
    let rows = vec![
        vec![0, 0, 1, 0, 0],
        vec![0, 1, 0, 1, 0],
        vec![0, 0, 0, 0, 0],
        vec![0, 1, 0, 0, 0],
        vec![0, 0, 0, 0, 0],
    ];
    Grid::from_numbers(&rows).unwrap()
}

#[test]
fn test_creation() {
    let grid = fixture();
    assert_eq!(grid.width(), 5);
    assert_eq!(grid.height(), 5);
    assert_eq!(grid.get((2, 0)).unwrap(), Cell::Alive);
    assert_eq!(grid.get((1, 1)).unwrap(), Cell::Alive);
    assert_eq!(grid.get((3, 1)).unwrap(), Cell::Alive);
    assert_eq!(grid.get((1, 3)).unwrap(), Cell::Alive);
    assert_eq!(grid.get((0, 0)).unwrap(), Cell::Dead);
    assert_eq!(grid.get((4, 4)).unwrap(), Cell::Dead);
}

#[test]
fn test_count_alive_neighbours() {
    let grid = fixture();
    assert_eq!(grid.count_alive_neighbours((1, 0)), 2);
    assert_eq!(grid.count_alive_neighbours((1, 1)), 1);
    assert_eq!(grid.count_alive_neighbours((1, 3)), 0);
    assert_eq!(grid.count_alive_neighbours((4, 4)), 0);
}

#[test]
fn test_corner_counts_at_most_three() {
    // a board that is fully alive: each corner still sees only its
    // three in-bounds neighbours
    let rows = vec![
        vec![1, 1, 1],
        vec![1, 1, 1],
        vec![1, 1, 1],
    ];
    let grid = Grid::from_numbers(&rows).unwrap();
    assert_eq!(grid.count_alive_neighbours((0, 0)), 3);
    assert_eq!(grid.count_alive_neighbours((2, 0)), 3);
    assert_eq!(grid.count_alive_neighbours((0, 2)), 3);
    assert_eq!(grid.count_alive_neighbours((2, 2)), 3);
    // an edge cell sees five, a centre cell all eight
    assert_eq!(grid.count_alive_neighbours((1, 0)), 5);
    assert_eq!(grid.count_alive_neighbours((1, 1)), 8);
}

#[test]
fn test_from_numbers_rejects_non_binary_token() {
    let rows = vec![vec![0, 1], vec![1, 2]];
    assert!(Grid::from_numbers(&rows).is_none());
}

#[test]
fn test_from_numbers_rejects_ragged_rows() {
    let rows = vec![vec![0, 1, 0], vec![1, 0]];
    assert!(Grid::from_numbers(&rows).is_none());
}

#[test]
fn test_from_numbers_empty() {
    let rows: Vec<Vec<usize>> = vec![];
    let grid = Grid::from_numbers(&rows).unwrap();
    assert_eq!(grid.width(), 0);
    assert_eq!(grid.height(), 0);
    assert_eq!(grid.area(), 0);
}

fn assert_alive_exactly(grid: &ConwayGrid, alive: &[(usize, usize)]) {
    for row in 0..grid.height() {
        for col in 0..grid.width() {
            let expected = if alive.contains(&(col, row)) {
                Cell::Alive
            } else {
                Cell::Dead
            };
            assert_eq!(grid.get((col, row)).unwrap(), expected, "at ({}, {})", col, row);
        }
    }
}

#[test]
fn test_block_still_life() {
    // a 2x2 block surrounded by dead cells is unchanged by a step
    let rows = vec![
        vec![0, 0, 0, 0],
        vec![0, 1, 1, 0],
        vec![0, 1, 1, 0],
        vec![0, 0, 0, 0],
    ];
    let mut grid = Grid::from_numbers(&rows).unwrap();
    grid.step().unwrap();
    assert_alive_exactly(&grid, &[(1, 1), (2, 1), (1, 2), (2, 2)]);
    grid.step().unwrap();
    assert_alive_exactly(&grid, &[(1, 1), (2, 1), (1, 2), (2, 2)]);
}

#[test]
fn test_blinker_oscillates() {
    // a horizontal blinker flips to vertical and back
    let rows = vec![
        vec![0, 0, 0, 0, 0],
        vec![0, 0, 0, 0, 0],
        vec![0, 1, 1, 1, 0],
        vec![0, 0, 0, 0, 0],
        vec![0, 0, 0, 0, 0],
    ];
    let mut grid = Grid::from_numbers(&rows).unwrap();
    assert_alive_exactly(&grid, &[(1, 2), (2, 2), (3, 2)]);
    grid.step().unwrap();
    assert_alive_exactly(&grid, &[(2, 1), (2, 2), (2, 3)]);
    grid.step().unwrap();
    assert_alive_exactly(&grid, &[(1, 2), (2, 2), (3, 2)]);
}

#[test]
fn test_lonely_cell_dies_and_empty_stays_empty() {
    let rows = vec![
        vec![0, 0, 0],
        vec![0, 1, 0],
        vec![0, 0, 0],
    ];
    let mut grid = Grid::from_numbers(&rows).unwrap();
    grid.step().unwrap();
    assert_alive_exactly(&grid, &[]);
    grid.step().unwrap();
    assert_alive_exactly(&grid, &[]);
}

#[test]
fn test_overcrowded_cell_dies_birth_on_three() {
    // the centre of a plus sign has four alive neighbours and dies;
    // each diagonal corner of the plus sees exactly three and is born
    let rows = vec![
        vec![0, 1, 0],
        vec![1, 1, 1],
        vec![0, 1, 0],
    ];
    let mut grid = Grid::from_numbers(&rows).unwrap();
    grid.step().unwrap();
    assert_alive_exactly(
        &grid,
        &[(1, 0), (0, 1), (2, 1), (1, 2), (0, 0), (2, 0), (0, 2), (2, 2)],
    );
}

#[test]
fn test_step_on_empty_grid() {
    let rows: Vec<Vec<usize>> = vec![];
    let mut grid = Grid::from_numbers(&rows).unwrap();
    assert!(grid.step().is_ok());
    assert_eq!(grid.width(), 0);
    assert_eq!(grid.height(), 0);
}

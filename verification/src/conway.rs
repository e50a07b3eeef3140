//! Conway's Game of Life over a Grid of cells.
//!
//! Each step derives every cell's next state from its eight Moore
//! neighbours in a read-only snapshot of the previous generation.
//! The grid has no wraparound: coordinates outside the bounds count
//! as dead.

use crate::grid::{Coord, Grid, GridError};
use vstd::prelude::*;

verus! {

/// The state of one cell of the automaton.
#[derive(Copy, Clone, Debug, PartialEq, Eq, Structural)]
pub enum Cell {
    Alive,
    Dead,
}

/// A Game-of-Life board.
pub type ConwayGrid = Grid<Cell>;

/// Whether (col, row) is inside the grid and holds an alive cell.
/// Coordinates outside the bounds never count as alive.
pub open spec fn spec_alive_at(g: Grid<Cell>, col: int, row: int) -> bool {
    g.spec_valid(col, row) && g.spec_at(col, row) is Alive
}

/// 1 if (col, row) holds an in-bounds alive cell, else 0.
pub open spec fn spec_alive_count(g: Grid<Cell>, col: int, row: int) -> int {
    if spec_alive_at(g, col, row) {
        1int
    } else {
        0int
    }
}

/// How many of the eight Moore neighbours of (col, row) are alive.
pub open spec fn spec_alive_neighbours(g: Grid<Cell>, col: int, row: int) -> int {
    spec_alive_count(g, col - 1, row - 1) + spec_alive_count(g, col, row - 1)
        + spec_alive_count(g, col + 1, row - 1) + spec_alive_count(g, col - 1, row)
        + spec_alive_count(g, col + 1, row) + spec_alive_count(g, col - 1, row + 1)
        + spec_alive_count(g, col, row + 1) + spec_alive_count(g, col + 1, row + 1)
}

/// The Game-of-Life transition rule for one cell: an alive cell with
/// two or three alive neighbours stays alive, a dead cell with three
/// alive neighbours becomes alive, every other cell is dead.
pub open spec fn spec_next_cell(current: Cell, neighbours: int) -> Cell {
    if neighbours == 3 || (neighbours == 2 && current is Alive) {
        Cell::Alive
    } else {
        Cell::Dead
    }
}

/// The width a token table describes: the length of its first row,
/// or zero when it has no rows.
pub open spec fn spec_rows_width(rows: Seq<Vec<usize>>) -> int {
    if rows.len() == 0 {
        0
    } else {
        rows[0]@.len() as int
    }
}

/// Whether every row of the token table has the same length.
pub open spec fn spec_rows_rectangular(rows: Seq<Vec<usize>>) -> bool {
    forall|i: int| 0 <= i < rows.len() ==> (#[trigger] rows[i])@.len() == spec_rows_width(rows)
}

/// Whether every token of the table is 0 or 1.
pub open spec fn spec_rows_binary(rows: Seq<Vec<usize>>) -> bool {
    forall|i: int, j: int|
        0 <= i < rows.len() && 0 <= j < rows[i]@.len() ==> (#[trigger] rows[i]@[j]) == 0
            || rows[i]@[j] == 1
}

/// The cell a 0/1 token stands for: 1 is alive, 0 is dead.
pub open spec fn spec_cell_of_number(n: usize) -> Cell {
    if n == 1 {
        Cell::Alive
    } else {
        Cell::Dead
    }
}

/// The neighbour count reads in-bounds cells only: two grids of the
/// same dimensions that agree on every in-bounds cell have the same
/// alive-neighbour count at every coordinate, however the cells
/// outside the bounds are modelled.
pub proof fn lemma_neighbours_read_in_bounds_only(
    g1: Grid<Cell>,
    g2: Grid<Cell>,
    col: int,
    row: int,
)
    requires
        g1.spec_width() == g2.spec_width(),
        g1.spec_height() == g2.spec_height(),
        forall|c: int, w: int| g1.spec_valid(c, w) ==> g1.spec_at(c, w) == g2.spec_at(c, w),
    ensures
        spec_alive_neighbours(g1, col, row) == spec_alive_neighbours(g2, col, row),
{
}

/// A cell at a corner of the grid has at most three in-bounds
/// neighbours, so its alive-neighbour count is at most three.
pub proof fn lemma_corner_neighbours(g: Grid<Cell>, col: int, row: int)
    requires
        g.spec_valid(col, row),
        col == 0 || col == g.spec_width() - 1,
        row == 0 || row == g.spec_height() - 1,
    ensures
        spec_alive_neighbours(g, col, row) <= 3,
{
}

/// Whether the alive cells of the grid are exactly a 2x2 block whose
/// top-left corner is (c0, r0).
pub open spec fn spec_block_only(g: Grid<Cell>, c0: int, r0: int) -> bool {
    &&& g.spec_valid(c0, r0)
    &&& g.spec_valid(c0 + 1, r0 + 1)
    &&& forall|c: int, w: int|
        g.spec_valid(c, w) ==> ((#[trigger] g.spec_at(c, w)) is Alive <==> c0 <= c <= c0 + 1
            && r0 <= w <= r0 + 1)
}

/// 1 if (x, y) lies in the 2x2 block at (c0, r0), else 0.
spec fn spec_block_ind(c0: int, r0: int, x: int, y: int) -> int {
    if c0 <= x <= c0 + 1 && r0 <= y <= r0 + 1 {
        1int
    } else {
        0int
    }
}

/// On a grid whose alive cells are exactly the 2x2 block at (c0, r0),
/// a coordinate counts as alive exactly when it lies in the block.
proof fn lemma_block_alive_count(g: Grid<Cell>, c0: int, r0: int, x: int, y: int)
    requires
        spec_block_only(g, c0, r0),
    ensures
        spec_alive_count(g, x, y) == spec_block_ind(c0, r0, x, y),
{
    if c0 <= x <= c0 + 1 && r0 <= y <= r0 + 1 {
        assert(g.spec_valid(x, y));
    }
}

/// Pure arithmetic: a cell of the 2x2 block has exactly three block
/// cells among its eight neighbours, and a cell outside the block at
/// most two.
proof fn lemma_block_ind_sum(c0: int, r0: int, c: int, w: int)
    ensures
        spec_block_ind(c0, r0, c, w) == 1 ==> spec_block_ind(c0, r0, c - 1, w - 1)
            + spec_block_ind(c0, r0, c, w - 1) + spec_block_ind(c0, r0, c + 1, w - 1)
            + spec_block_ind(c0, r0, c - 1, w) + spec_block_ind(c0, r0, c + 1, w)
            + spec_block_ind(c0, r0, c - 1, w + 1) + spec_block_ind(c0, r0, c, w + 1)
            + spec_block_ind(c0, r0, c + 1, w + 1) == 3,
        spec_block_ind(c0, r0, c, w) == 0 ==> spec_block_ind(c0, r0, c - 1, w - 1)
            + spec_block_ind(c0, r0, c, w - 1) + spec_block_ind(c0, r0, c + 1, w - 1)
            + spec_block_ind(c0, r0, c - 1, w) + spec_block_ind(c0, r0, c + 1, w)
            + spec_block_ind(c0, r0, c - 1, w + 1) + spec_block_ind(c0, r0, c, w + 1)
            + spec_block_ind(c0, r0, c + 1, w + 1) <= 2,
{
}

/// One cell of the still-life argument: on a block-only grid the
/// transition rule leaves the cell at (c, w) unchanged.
proof fn lemma_block_still_cell(g: Grid<Cell>, c0: int, r0: int, c: int, w: int)
    requires
        spec_block_only(g, c0, r0),
        g.spec_valid(c, w),
    ensures
        spec_next_cell(g.spec_at(c, w), spec_alive_neighbours(g, c, w)) == g.spec_at(c, w),
{
    lemma_block_alive_count(g, c0, r0, c - 1, w - 1);
    lemma_block_alive_count(g, c0, r0, c, w - 1);
    lemma_block_alive_count(g, c0, r0, c + 1, w - 1);
    lemma_block_alive_count(g, c0, r0, c - 1, w);
    lemma_block_alive_count(g, c0, r0, c + 1, w);
    lemma_block_alive_count(g, c0, r0, c - 1, w + 1);
    lemma_block_alive_count(g, c0, r0, c, w + 1);
    lemma_block_alive_count(g, c0, r0, c + 1, w + 1);
    lemma_block_ind_sum(c0, r0, c, w);
    if c0 <= c <= c0 + 1 && r0 <= w <= r0 + 1 {
        assert(g.spec_at(c, w) is Alive);
        assert(spec_alive_neighbours(g, c, w) == 3);
    } else {
        assert(!(g.spec_at(c, w) is Alive));
        assert(spec_alive_neighbours(g, c, w) <= 2);
    }
}

/// A 2x2 block of alive cells with every other cell dead is a still
/// life: the transition rule leaves every cell of such a grid
/// unchanged. Each block cell sees exactly its three block mates,
/// and no dead cell sees more than two block cells.
pub proof fn lemma_block_is_still_life(g: Grid<Cell>, c0: int, r0: int)
    requires
        g.wf(),
        spec_block_only(g, c0, r0),
    ensures
        forall|c: int, w: int|
            g.spec_valid(c, w) ==> spec_next_cell(
                #[trigger] g.spec_at(c, w),
                spec_alive_neighbours(g, c, w),
            ) == g.spec_at(c, w),
{
    assert forall|c: int, w: int| g.spec_valid(c, w)
        implies spec_next_cell(g.spec_at(c, w), spec_alive_neighbours(g, c, w)) == g.spec_at(c, w)
    by {
        lemma_block_still_cell(g, c0, r0, c, w);
    }
}

impl Grid<Cell> {
    /// Returns true if the cell at the given coordinate is inside the
    /// grid and alive.
    fn is_alive(&self, coord: Coord) -> (b: bool)
        requires
            self.wf(),
        ensures
            b == spec_alive_at(*self, coord.0 as int, coord.1 as int),
    {
        match self.get(coord) {
            Ok(val) => val == Cell::Alive,
            Err(_) => false,
        }
    }

    /// Counts the number of alive neighbours of the given cell among
    /// the eight Moore-neighbourhood offsets; offsets that fall
    /// outside the grid contribute nothing.
    pub fn count_alive_neighbours(&self, coord: Coord) -> (n: usize)
        requires
            self.wf(),
        ensures
            n == spec_alive_neighbours(*self, coord.0 as int, coord.1 as int),
            n <= 8,
    {
        let (col, row) = coord;
        let mut n: usize = 0;
        if col > 0 && row > 0 && self.is_alive((col - 1, row - 1)) {
            n = n + 1;
        }
        if row > 0 && self.is_alive((col, row - 1)) {
            n = n + 1;
        }
        if col < usize::MAX && row > 0 && self.is_alive((col + 1, row - 1)) {
            n = n + 1;
        }
        if col > 0 && self.is_alive((col - 1, row)) {
            n = n + 1;
        }
        if col < usize::MAX && self.is_alive((col + 1, row)) {
            n = n + 1;
        }
        if col > 0 && row < usize::MAX && self.is_alive((col - 1, row + 1)) {
            n = n + 1;
        }
        if row < usize::MAX && self.is_alive((col, row + 1)) {
            n = n + 1;
        }
        if col < usize::MAX && row < usize::MAX && self.is_alive((col + 1, row + 1)) {
            n = n + 1;
        }
        n
    }

    /// Writes into self the next generation of the cell at coord,
    /// computed from the read-only snapshot old_grid of the previous
    /// generation.
    fn update_cell(&mut self, coord: Coord, old_grid: &Grid<Cell>) -> (r: Result<(), GridError>)
        requires
            old(self).wf(),
            old_grid.wf(),
            old(self).spec_width() == old_grid.spec_width(),
            old(self).spec_height() == old_grid.spec_height(),
            old(self).spec_valid(coord.0 as int, coord.1 as int),
        ensures
            r == Ok::<(), GridError>(()),
            final(self).wf(),
            final(self).spec_width() == old(self).spec_width(),
            final(self).spec_height() == old(self).spec_height(),
            final(self).spec_at(coord.0 as int, coord.1 as int) == spec_next_cell(
                old_grid.spec_at(coord.0 as int, coord.1 as int),
                spec_alive_neighbours(*old_grid, coord.0 as int, coord.1 as int),
            ),
            forall|c: int, w: int|
                old(self).spec_valid(c, w) && (c != coord.0 || w != coord.1)
                    ==> final(self).spec_at(c, w) == old(self).spec_at(c, w),
    {
        let current = match old_grid.get(coord) {
            Ok(cell) => cell,
            Err(_) => Cell::Dead,
        };
        let new_state = match (old_grid.count_alive_neighbours(coord), current) {
            (2, Cell::Alive) => Cell::Alive,
            (3, Cell::Alive) => Cell::Alive,
            (3, Cell::Dead) => Cell::Alive,
            (_, Cell::Alive) => Cell::Dead,
            (_, _) => Cell::Dead,
        };
        self.set(coord, new_state)
    }

    /// Builds a board from a table of 0/1 cell numbers, one inner
    /// vector per grid row: 0 is a dead cell, 1 an alive cell.
    /// Returns None when the rows have unequal lengths, when some
    /// token is neither 0 nor 1, or when the table's area does not
    /// fit in usize.
    #[verifier::loop_isolation(false)]
    pub fn from_numbers(rows: &Vec<Vec<usize>>) -> (r: Option<Grid<Cell>>)
        ensures
            r is Some <==> spec_rows_rectangular(rows@) && spec_rows_binary(rows@)
                && spec_rows_width(rows@) * rows@.len() <= usize::MAX,
            r matches Some(g) ==> {
                &&& g.wf()
                &&& g.spec_width() == spec_rows_width(rows@)
                &&& g.spec_height() == rows@.len()
                &&& forall|c: int, w: int|
                    g.spec_valid(c, w) ==> g.spec_at(c, w) == spec_cell_of_number(rows@[w]@[c])
            },
    {
        let height: usize = rows.len();
        let width: usize = if height == 0 {
            0
        } else {
            rows[0].len()
        };
        let mut i: usize = 0;
        while i < height
            invariant
                i <= height,
                forall|k: int| 0 <= k < i ==> (#[trigger] rows@[k])@.len() == width,
                forall|k: int, j: int|
                    0 <= k < i && 0 <= j < rows@[k]@.len() ==> (#[trigger] rows@[k]@[j]) == 0
                        || rows@[k]@[j] == 1,
            decreases height - i,
        {
            let row = &rows[i];
            if row.len() != width {
                proof {
                    assert(rows@[i as int]@.len() != spec_rows_width(rows@));
                }
                return None;
            }
            let mut j: usize = 0;
            while j < width
                invariant
                    j <= width,
                    i < height,
                    rows@[i as int]@.len() == width,
                    forall|l: int|
                        0 <= l < j ==> (#[trigger] rows@[i as int]@[l]) == 0 || rows@[i as int]@[l]
                            == 1,
                decreases width - j,
            {
                let v: usize = row[j];
                if v != 0 && v != 1 {
                    proof {
                        assert(rows@[i as int]@[j as int] != 0 && rows@[i as int]@[j as int] != 1);
                    }
                    return None;
                }
                j = j + 1;
            }
            i = i + 1;
        }
        proof {
            assert((width as int) * (height as int) <= (u64::MAX as int) * (u64::MAX as int))
                by (nonlinear_arith)
                requires
                    width as int <= u64::MAX as int,
                    height as int <= u64::MAX as int,
            ;
        }
        if (width as u128) * (height as u128) > (usize::MAX as u128) {
            return None;
        }
        let mut grid = Grid::new(width, height, Cell::Dead);
        let mut i: usize = 0;
        while i < height
            invariant
                i <= height,
                grid.wf(),
                grid.spec_width() == width,
                grid.spec_height() == height,
                forall|c: int, w: int|
                    0 <= c < width && 0 <= w < i ==> #[trigger] grid.spec_at(c, w)
                        == spec_cell_of_number(rows@[w]@[c]),
                forall|c: int, w: int|
                    0 <= c < width && i <= w < height ==> #[trigger] grid.spec_at(c, w)
                        == Cell::Dead,
            decreases height - i,
        {
            let row = &rows[i];
            let mut j: usize = 0;
            while j < width
                invariant
                    j <= width,
                    i < height,
                    grid.wf(),
                    grid.spec_width() == width,
                    grid.spec_height() == height,
                    forall|c: int, w: int|
                        0 <= c < width && 0 <= w < i ==> #[trigger] grid.spec_at(c, w)
                            == spec_cell_of_number(rows@[w]@[c]),
                    forall|c: int|
                        0 <= c < j ==> #[trigger] grid.spec_at(c, i as int) == spec_cell_of_number(
                            rows@[i as int]@[c],
                        ),
                    forall|c: int|
                        j <= c < width ==> #[trigger] grid.spec_at(c, i as int) == Cell::Dead,
                    forall|c: int, w: int|
                        0 <= c < width && i < w < height ==> #[trigger] grid.spec_at(c, w)
                            == Cell::Dead,
                decreases width - j,
            {
                if row[j] == 1 {
                    match grid.set((j, i), Cell::Alive) {
                        Ok(_) => {},
                        Err(_) => {},
                    };
                }
                j = j + 1;
            }
            i = i + 1;
        }
        Some(grid)
    }

    /// Advances the whole grid by one generation: every cell's next
    /// state is derived simultaneously from the pre-step grid.
    #[verifier::loop_isolation(false)]
    #[verifier::rlimit(50)]
    pub fn step(&mut self) -> (r: Result<(), GridError>)
        requires
            old(self).wf(),
        ensures
            r == Ok::<(), GridError>(()),
            final(self).wf(),
            final(self).spec_width() == old(self).spec_width(),
            final(self).spec_height() == old(self).spec_height(),
            forall|c: int, w: int|
                old(self).spec_valid(c, w) ==> final(self).spec_at(c, w) == spec_next_cell(
                    old(self).spec_at(c, w),
                    spec_alive_neighbours(*old(self), c, w),
                ),
    {
        let grid_copy = self.clone();
        let height: usize = self.height();
        let width: usize = self.width();
        let mut row: usize = 0;
        while row < height
            invariant
                self.wf(),
                self.spec_width() == width,
                self.spec_height() == height,
                row <= height,
                forall|c: int, w: int|
                    0 <= c < width && 0 <= w < row ==> #[trigger] self.spec_at(c, w) == spec_next_cell(
                        grid_copy.spec_at(c, w),
                        spec_alive_neighbours(grid_copy, c, w),
                    ),
                forall|c: int, w: int|
                    0 <= c < width && row <= w < height
                        ==> #[trigger] self.spec_at(c, w) == grid_copy.spec_at(c, w),
            decreases height - row,
        {
            let mut col: usize = 0;
            while col < width
                invariant
                    self.wf(),
                    self.spec_width() == width,
                    self.spec_height() == height,
                    row < height,
                    col <= width,
                    forall|c: int, w: int|
                        0 <= c < width && (0 <= w < row || (w == row && 0 <= c < col))
                            ==> #[trigger] self.spec_at(c, w) == spec_next_cell(
                            grid_copy.spec_at(c, w),
                            spec_alive_neighbours(grid_copy, c, w),
                        ),
                    forall|c: int, w: int|
                        0 <= c < width && ((w == row && col <= c < width) || (row < w < height))
                            ==> #[trigger] self.spec_at(c, w) == grid_copy.spec_at(c, w),
                decreases width - col,
            {
                match self.update_cell((col, row), &grid_copy) {
                    Ok(_) => {},
                    Err(e) => {
                        return Err(e);
                    },
                };
                col = col + 1;
            }
            row = row + 1;
        }
        Ok(())
    }
}

} // verus!

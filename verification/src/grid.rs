//! A fixed-size two-dimensional grid, backed by a flat vector in
//! row-major layout (index = col + width * row), with bounds-checked
//! accessors.

use vstd::prelude::*;

verus! {

/// A two dimensional coordinate: (column, row), both zero-indexed.
pub type Coord = (usize, usize);

/// The errors a grid access can produce.
#[derive(Debug, PartialEq, Eq, Structural)]
pub enum GridError {
    IndexOutOfBounds,
}

/// A generic fixed size two-dimensional grid.
///
/// Uses a one-dimensional vector to hold the data,
/// in order to be more performant.
#[derive(Debug)]
pub struct Grid<T> {
    width: usize,
    height: usize,
    data: Vec<T>,
}

impl<T> Grid<T> {
    /// Structural invariant: the backing store holds exactly
    /// width * height entries.
    pub closed spec fn wf(&self) -> bool {
        self.data@.len() == (self.width as int) * (self.height as int)
    }

    pub closed spec fn spec_width(&self) -> usize {
        self.width
    }

    pub closed spec fn spec_height(&self) -> usize {
        self.height
    }

    /// The backing store, as a mathematical sequence.
    pub closed spec fn spec_data(&self) -> Seq<T> {
        self.data@
    }

    /// Whether (col, row) lies inside the grid.
    pub open spec fn spec_valid(&self, col: int, row: int) -> bool {
        0 <= col < self.spec_width() && 0 <= row < self.spec_height()
    }

    /// The cell stored at (col, row), through the row-major flattening.
    pub open spec fn spec_at(&self, col: int, row: int) -> T {
        self.spec_data()[col + (self.spec_width() as int) * row]
    }
}

/// A coordinate inside a width x height rectangle flattens to an index
/// inside the backing store.
proof fn lemma_flatten_in_range(width: int, height: int, col: int, row: int)
    requires
        0 <= col < width,
        0 <= row < height,
    ensures
        0 <= col + width * row < width * height,
{
    assert(0 <= col + width * row < width * height) by (nonlinear_arith)
        requires
            0 <= col < width,
            0 <= row < height,
    ;
}

/// The row-major flattening is injective on in-bounds coordinates.
proof fn lemma_flatten_injective(width: int, height: int, c1: int, r1: int, c2: int, r2: int)
    requires
        0 <= c1 < width,
        0 <= r1 < height,
        0 <= c2 < width,
        0 <= r2 < height,
        c1 + width * r1 == c2 + width * r2,
    ensures
        c1 == c2 && r1 == r2,
{
    assert(c1 == c2 && r1 == r2) by (nonlinear_arith)
        requires
            0 <= c1 < width,
            0 <= r1 < height,
            0 <= c2 < width,
            0 <= r2 < height,
            c1 + width * r1 == c2 + width * r2,
    ;
}

impl<T: Copy> Grid<T> {
    /// Creates a new Grid<T> of size (width, height)
    /// with a default value for T.
    #[verifier::loop_isolation(false)]
    pub fn new(width: usize, height: usize, default: T) -> (g: Grid<T>)
        requires
            (width as int) * (height as int) <= usize::MAX,
        ensures
            g.wf(),
            g.spec_width() == width,
            g.spec_height() == height,
            forall|col: int, row: int|
                g.spec_valid(col, row) ==> g.spec_at(col, row) == default,
    {
        let area: usize = width * height;
        let mut data: Vec<T> = Vec::new();
        let mut i: usize = 0;
        while i < area
            invariant
                i <= area,
                data@.len() == i as int,
                forall|j: int| 0 <= j < i ==> data@[j] == default,
            decreases area - i,
        {
            data.push(default);
            i = i + 1;
        }
        let g = Grid { width, height, data };
        proof {
            assert forall|col: int, row: int| g.spec_valid(col, row)
                implies g.spec_at(col, row) == default
            by {
                lemma_flatten_in_range(width as int, height as int, col, row);
            }
        }
        g
    }
}

impl<T: Copy> Grid<T> {
    /// Two dimensional coordinate to one dimensional index.
    fn flatten(&self, coord: Coord) -> (index: usize)
        requires
            self.wf(),
            self.spec_valid(coord.0 as int, coord.1 as int),
        ensures
            index == coord.0 + (self.spec_width() as int) * coord.1,
            index < self.spec_data().len(),
    {
        proof {
            lemma_flatten_in_range(
                self.spec_width() as int,
                self.spec_height() as int,
                coord.0 as int,
                coord.1 as int,
            );
        }
        let n: usize = self.data.len();
        let (col, row) = coord;
        proof {
            assert(col + (self.spec_width() as int) * row < n);
        }
        col + self.width * row
    }

    /// Get the area of the grid: width * height cells.
    pub fn area(&self) -> (a: usize)
        requires
            self.wf(),
        ensures
            a == (self.spec_width() as int) * (self.spec_height() as int),
    {
        self.data.len()
    }

    /// Get a grid cell by its flat index into the backing store.
    pub fn get_using_index(&self, index: usize) -> (r: Result<T, GridError>)
        ensures
            index < self.spec_data().len() ==> r == Ok::<T, GridError>(
                self.spec_data()[index as int],
            ),
            index >= self.spec_data().len() ==> r == Err::<T, GridError>(
                GridError::IndexOutOfBounds,
            ),
    {
        if index < self.data.len() {
            Ok(self.data[index])
        } else {
            Err(GridError::IndexOutOfBounds)
        }
    }

    /// Get a grid cell by coordinate; fails with IndexOutOfBounds
    /// exactly when the coordinate lies outside the grid.
    pub fn get(&self, coord: Coord) -> (r: Result<T, GridError>)
        requires
            self.wf(),
        ensures
            self.spec_valid(coord.0 as int, coord.1 as int) ==> r == Ok::<T, GridError>(
                self.spec_at(coord.0 as int, coord.1 as int),
            ),
            !self.spec_valid(coord.0 as int, coord.1 as int) ==> r == Err::<T, GridError>(
                GridError::IndexOutOfBounds,
            ),
    {
        if self.is_valid_coord(coord) {
            let index = self.flatten(coord);
            Ok(self.data[index])
        } else {
            Err(GridError::IndexOutOfBounds)
        }
    }

    /// Overwrite a grid cell; fails with IndexOutOfBounds exactly when
    /// the coordinate lies outside the grid, and then leaves the grid
    /// unchanged.
    pub fn set(&mut self, coord: Coord, new: T) -> (r: Result<(), GridError>)
        requires
            old(self).wf(),
        ensures
            final(self).wf(),
            final(self).spec_width() == old(self).spec_width(),
            final(self).spec_height() == old(self).spec_height(),
            old(self).spec_valid(coord.0 as int, coord.1 as int) ==> {
                &&& r == Ok::<(), GridError>(())
                &&& final(self).spec_at(coord.0 as int, coord.1 as int) == new
                &&& forall|c: int, w: int|
                    old(self).spec_valid(c, w) && (c != coord.0 || w != coord.1)
                        ==> final(self).spec_at(c, w) == old(self).spec_at(c, w)
            },
            !old(self).spec_valid(coord.0 as int, coord.1 as int) ==> {
                &&& r == Err::<(), GridError>(GridError::IndexOutOfBounds)
                &&& *final(self) == *old(self)
            },
    {
        if self.is_valid_coord(coord) {
            let index = self.flatten(coord);
            self.data.set(index, new);
            proof {
                let width = self.spec_width() as int;
                let height = self.spec_height() as int;
                assert forall|c: int, w: int|
                    old(self).spec_valid(c, w) && (c != coord.0 || w != coord.1)
                    implies self.spec_at(c, w) == old(self).spec_at(c, w)
                by {
                    lemma_flatten_in_range(width, height, c, w);
                    if c + width * w == index as int {
                        lemma_flatten_injective(
                            width,
                            height,
                            c,
                            w,
                            coord.0 as int,
                            coord.1 as int,
                        );
                    }
                }
            }
            Ok(())
        } else {
            Err(GridError::IndexOutOfBounds)
        }
    }
}

impl<T> Grid<T> {
    /// Get the width of the grid.
    pub fn width(&self) -> (w: usize)
        ensures
            w == self.spec_width(),
    {
        self.width
    }

    /// Get the height of the grid.
    pub fn height(&self) -> (h: usize)
        ensures
            h == self.spec_height(),
    {
        self.height
    }

    /// Get the grid data.
    pub fn data(&self) -> (d: &Vec<T>)
        ensures
            d@ == self.spec_data(),
    {
        &self.data
    }

    /// Determines if the given coordinate is valid in the grid.
    pub fn is_valid_coord(&self, coord: Coord) -> (b: bool)
        ensures
            b == self.spec_valid(coord.0 as int, coord.1 as int),
    {
        let (col, row) = coord;
        col < self.width && row < self.height
    }
}

impl<T> Default for Grid<T> {
    /// The empty 0 x 0 grid.
    fn default() -> (g: Self)
        ensures
            g.wf(),
            g.spec_width() == 0,
            g.spec_height() == 0,
    {
        Grid { width: 0, height: 0, data: Vec::new() }
    }
}

impl<T: Copy> Clone for Grid<T> {
    /// A deep copy: same dimensions, same cells.
    #[verifier::loop_isolation(false)]
    fn clone(&self) -> (res: Self)
        ensures
            res.spec_width() == self.spec_width(),
            res.spec_height() == self.spec_height(),
            res.spec_data() == self.spec_data(),
            self.wf() ==> res.wf(),
    {
        let mut data: Vec<T> = Vec::new();
        let mut i: usize = 0;
        let n: usize = self.data.len();
        while i < n
            invariant
                i <= n,
                data@.len() == i as int,
                forall|j: int| 0 <= j < i ==> data@[j] == self.spec_data()[j],
            decreases n - i,
        {
            data.push(self.data[i]);
            i = i + 1;
        }
        let res = Grid { width: self.width, height: self.height, data };
        proof {
            assert(res.spec_data() =~= self.spec_data());
        }
        res
    }
}

} // verus!

use vstd::prelude::*;

verus! {

/// Abstract value of a grid: its dimensions and its cells in row-major order
/// (the cell at column `x` of row `y` sits at `y * width + x`).
pub struct GridModel {
    pub width: nat,
    pub height: nat,
    pub cells: Seq<bool>,
}

/// Position of the cell `(x, y)` in the row-major order of a grid `width` cells wide.
pub open spec fn cell_index(width: nat, x: int, y: int) -> int {
    y * width + x
}

impl GridModel {
    /// Positive dimensions, and exactly one color per cell.
    pub open spec fn wf(self) -> bool {
        &&& self.width > 0
        &&& self.height > 0
        &&& self.cells.len() == self.width * self.height
    }

    pub open spec fn in_bounds(self, x: int, y: int) -> bool {
        0 <= x < self.width && 0 <= y < self.height
    }

    /// Color of the cell `(x, y)`: `true` is black, `false` is white.
    pub open spec fn cell(self, x: int, y: int) -> bool {
        self.cells[cell_index(self.width, x, y)]
    }

    /// The same grid with the color of `(x, y)` replaced by `value`.
    pub open spec fn with_cell(self, x: int, y: int, value: bool) -> GridModel {
        GridModel { cells: self.cells.update(cell_index(self.width, x, y), value), ..self }
    }

    /// The same grid with the color of `(x, y)` inverted.
    pub open spec fn flipped(self, x: int, y: int) -> GridModel {
        self.with_cell(x, y, !self.cell(x, y))
    }
}

/// An in-bounds cell has an index inside the cell sequence, and distinct
/// in-bounds cells have distinct indices.
pub proof fn lemma_cell_index(width: nat, height: nat, x: int, y: int, x2: int, y2: int)
    requires
        0 <= x < width,
        0 <= y < height,
        0 <= x2 < width,
        0 <= y2 < height,
    ensures
        0 <= cell_index(width, x, y) < width * height,
        cell_index(width, x, y) < height * width,
        cell_index(width, x, y) == cell_index(width, x2, y2) ==> x == x2 && y == y2,
{
    assert(0 <= y * width + x < width * height && y * width + x < height * width)
        by (nonlinear_arith)
        requires
            0 <= x < width,
            0 <= y < height,
    ;
    assert(y * width + x == y2 * width + x2 ==> x == x2 && y == y2) by (nonlinear_arith)
        requires
            0 <= x < width,
            0 <= x2 < width,
            0 <= y,
            0 <= y2,
    ;
}

/// Flipping the same cell twice gives back the grid it started from; the first
/// flip inverts that cell.
pub proof fn lemma_flip_twice(g: GridModel, x: int, y: int)
    requires
        g.wf(),
        g.in_bounds(x, y),
    ensures
        g.flipped(x, y).cell(x, y) == !g.cell(x, y),
        g.flipped(x, y).flipped(x, y) == g,
{
    lemma_cell_index(g.width, g.height, x, y, x, y);
    assert(g.flipped(x, y).flipped(x, y).cells =~= g.cells);
}

/// A fixed-size rectangle of black-or-white cells, stored row by row.
pub struct Grid {
    width: usize,
    height: usize,
    cells: Vec<bool>,
}

impl View for Grid {
    type V = GridModel;

    closed spec fn view(&self) -> GridModel {
        GridModel { width: self.width as nat, height: self.height as nat, cells: self.cells@ }
    }
}

impl Grid {
    /// The model is well formed, and its size fits in memory.
    pub open spec fn wf(&self) -> bool {
        &&& self@.wf()
        &&& self@.width * self@.height <= usize::MAX
    }

    /// An all-white grid of `width` by `height` cells.
    pub fn new(width: usize, height: usize) -> (g: Grid)
        requires
            width > 0,
            height > 0,
            width * height <= usize::MAX,
        ensures
            g.wf(),
            g@.width == width,
            g@.height == height,
            forall|x: int, y: int| g@.in_bounds(x, y) ==> !#[trigger] g@.cell(x, y),
    {
        let n: usize = width * height;
        let mut cells: Vec<bool> = Vec::new();
        let mut i: usize = 0;
        while i < n
            invariant
                i <= n,
                cells@.len() == i,
                forall|k: int| 0 <= k < i ==> !#[trigger] cells@[k],
            decreases n - i,
        {
            cells.push(false);
            i = i + 1;
        }
        let g = Grid { width, height, cells };
        assert forall|x: int, y: int| g@.in_bounds(x, y) implies !#[trigger] g@.cell(x, y) by {
            lemma_cell_index(g@.width, g@.height, x, y, x, y);
        }
        g
    }

    pub fn width(&self) -> (r: usize)
        ensures
            r == self@.width,
    {
        self.width
    }

    pub fn height(&self) -> (r: usize)
        ensures
            r == self@.height,
    {
        self.height
    }

    fn index(&self, x: usize, y: usize) -> (r: usize)
        requires
            self.wf(),
            self@.in_bounds(x as int, y as int),
        ensures
            r == cell_index(self@.width, x as int, y as int),
            r < self.cells@.len(),
    {
        proof {
            lemma_cell_index(self@.width, self@.height, x as int, y as int, x as int, y as int);
        }
        y * self.width + x
    }

    /// Color of the cell `(x, y)`.
    pub fn get(&self, x: usize, y: usize) -> (r: bool)
        requires
            self.wf(),
            self@.in_bounds(x as int, y as int),
        ensures
            r == self@.cell(x as int, y as int),
    {
        let i = self.index(x, y);
        self.cells[i]
    }

    /// Overwrites the color of the cell `(x, y)`.
    pub fn set(&mut self, x: usize, y: usize, value: bool)
        requires
            old(self).wf(),
            old(self)@.in_bounds(x as int, y as int),
        ensures
            final(self).wf(),
            final(self)@ == old(self)@.with_cell(x as int, y as int, value),
    {
        let i = self.index(x, y);
        self.cells.set(i, value);
    }

    /// Inverts the color of the cell `(x, y)` and returns the color it had before.
    pub fn flip(&mut self, x: usize, y: usize) -> (was_black: bool)
        requires
            old(self).wf(),
            old(self)@.in_bounds(x as int, y as int),
        ensures
            final(self).wf(),
            was_black == old(self)@.cell(x as int, y as int),
            final(self)@ == old(self)@.flipped(x as int, y as int),
    {
        let v = self.get(x, y);
        self.set(x, y, !v);
        v
    }
    /// Every cell with its coordinates and color, row by row (`y` outer, `x` inner).
    pub fn enumerate(&self) -> (r: Vec<(usize, usize, bool)>)
        requires
            self.wf(),
        ensures
            r@.len() == self@.width * self@.height,
            forall|x: int, y: int|
                self@.in_bounds(x, y) ==> #[trigger] r@[cell_index(self@.width, x, y)] == (
                x as usize,
                y as usize,
                self@.cell(x, y),
            ),
    {
        let mut r: Vec<(usize, usize, bool)> = Vec::new();
        let mut y: usize = 0;
        while y < self.height
            invariant
                self.wf(),
                y <= self.height,
                r@.len() == y * self.width,
                forall|i: int, j: int|
                    0 <= i < self.width && 0 <= j < y ==> #[trigger] r@[cell_index(
                        self@.width,
                        i,
                        j,
                    )] == (i as usize, j as usize, self@.cell(i, j)),
            decreases self.height - y,
        {
            let mut x: usize = 0;
            while x < self.width
                invariant
                    self.wf(),
                    y < self.height,
                    x <= self.width,
                    r@.len() == y * self.width + x,
                    forall|i: int, j: int|
                        0 <= i < self.width && 0 <= j < y ==> #[trigger] r@[cell_index(
                            self@.width,
                            i,
                            j,
                        )] == (i as usize, j as usize, self@.cell(i, j)),
                    forall|i: int|
                        0 <= i < x ==> #[trigger] r@[cell_index(self@.width, i, y as int)] == (
                            i as usize,
                            y,
                            self@.cell(i, y as int),
                        ),
                decreases self.width - x,
            {
                proof {
                    lemma_cell_index(self@.width, self@.height, x as int, y as int, x as int, y as int);
                }
                let c = self.get(x, y);
                r.push((x, y, c));
                proof {
                    assert forall|i: int, j: int|
                        0 <= i < self.width && 0 <= j < y implies cell_index(self@.width, i, j)
                        < y * self.width by {
                        lemma_cell_index(self@.width, y as nat, i, j, i, j);
                    }
                }
                x = x + 1;
            }
            proof {
                assert forall|i: int, j: int|
                    0 <= i < self.width && 0 <= j < y + 1 implies #[trigger] r@[cell_index(
                        self@.width,
                        i,
                        j,
                    )] == (i as usize, j as usize, self@.cell(i, j)) by {
                    if j == y {
                    }
                }
                assert((y + 1) * self.width == y * self.width + self.width) by (nonlinear_arith);
            }
            y = y + 1;
        }
        assert(self@.width * self@.height == self.height * self.width) by (nonlinear_arith);
        r
    }
}

} // verus!

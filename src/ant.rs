use vstd::prelude::*;

use crate::grid::{lemma_cell_index, Grid, GridModel};

verus! {

/// The four cardinal directions an ant can face.
#[derive(Clone, Copy, Debug, PartialEq, Eq, Structural)]
pub enum Direction {
    North,
    South,
    East,
    West,
}

/// The direction reached by a quarter turn to the left.
pub open spec fn left_of(d: Direction) -> Direction {
    match d {
        Direction::North => Direction::West,
        Direction::West => Direction::South,
        Direction::South => Direction::East,
        Direction::East => Direction::North,
    }
}

/// The direction reached by a quarter turn to the right.
pub open spec fn right_of(d: Direction) -> Direction {
    match d {
        Direction::North => Direction::East,
        Direction::East => Direction::South,
        Direction::South => Direction::West,
        Direction::West => Direction::North,
    }
}

/// The new facing: left on a black cell, right on a white one.
pub open spec fn turned(d: Direction, found_black: bool) -> Direction {
    if found_black {
        left_of(d)
    } else {
        right_of(d)
    }
}

/// One place forward on a ring of `n` places.
pub open spec fn forward(v: int, n: int) -> int {
    if v + 1 == n {
        0
    } else {
        v + 1
    }
}

/// One place back on a ring of `n` places.
pub open spec fn backward(v: int, n: int) -> int {
    if v == 0 {
        n - 1
    } else {
        v - 1
    }
}

/// An ant: a position on the grid and a facing.
#[derive(Clone, Copy, Debug, PartialEq, Eq, Structural)]
pub struct Ant {
    pub x: usize,
    pub y: usize,
    pub facing: Direction,
}

impl Ant {
    /// The ant stands on a cell of `g`.
    pub open spec fn in_bounds(self, g: GridModel) -> bool {
        g.in_bounds(self.x as int, self.y as int)
    }

    /// The ant after it has turned by the color it found and moved one cell in
    /// its new facing: East is `x + 1`, West is `x - 1`, North is `y + 1`, South
    /// is `y - 1`. The grid is a torus: leaving one edge enters at the opposite one.
    pub open spec fn moved(self, found_black: bool, width: nat, height: nat) -> Ant {
        let d = turned(self.facing, found_black);
        let (x, y) = match d {
            Direction::East => (forward(self.x as int, width as int), self.y as int),
            Direction::West => (backward(self.x as int, width as int), self.y as int),
            Direction::North => (self.x as int, forward(self.y as int, height as int)),
            Direction::South => (self.x as int, backward(self.y as int, height as int)),
        };
        Ant { x: x as usize, y: y as usize, facing: d }
    }
}

/// One tick: the cell under the ant is inverted, and the ant turns and moves by
/// the color that cell had.
pub open spec fn step_model(g: GridModel, a: Ant) -> (GridModel, Ant) {
    let found_black = g.cell(a.x as int, a.y as int);
    (g.flipped(a.x as int, a.y as int), a.moved(found_black, g.width, g.height))
}

/// A tick depends on the grid and the ant alone: equal grids and equal ants
/// give equal results.
pub proof fn lemma_step_deterministic(g1: GridModel, a1: Ant, g2: GridModel, a2: Ant)
    requires
        g1 == g2,
        a1 == a2,
    ensures
        step_model(g1, a1) == step_model(g2, a2),
{
}

/// A tick changes exactly one cell, the one the ant stood on, and keeps the
/// grid's dimensions.
pub proof fn lemma_step_changes_one_cell(g: GridModel, a: Ant)
    requires
        g.wf(),
        a.in_bounds(g),
    ensures
        ({
            let g2 = step_model(g, a).0;
            &&& g2.wf()
            &&& g2.width == g.width
            &&& g2.height == g.height
            &&& g2.cell(a.x as int, a.y as int) != g.cell(a.x as int, a.y as int)
            &&& forall|x: int, y: int|
                g.in_bounds(x, y) && (x != a.x || y != a.y) ==> #[trigger] g2.cell(x, y)
                    == g.cell(x, y)
        }),
{
    let g2 = step_model(g, a).0;
    assert forall|x: int, y: int|
        g.in_bounds(x, y) && (x != a.x || y != a.y) implies #[trigger] g2.cell(x, y) == g.cell(
        x,
        y,
    ) by {
        lemma_cell_index(g.width, g.height, x, y, a.x as int, a.y as int);
        lemma_cell_index(g.width, g.height, a.x as int, a.y as int, x, y);
    }
    lemma_cell_index(g.width, g.height, a.x as int, a.y as int, a.x as int, a.y as int);
}

/// After a tick the ant faces one of the four directions, a quarter turn away
/// from where it faced before, and still stands on the grid.
pub proof fn lemma_step_facing_closed(g: GridModel, a: Ant)
    requires
        g.wf(),
        a.in_bounds(g),
    ensures
        ({
            let f = step_model(g, a).1.facing;
            &&& f == Direction::North || f == Direction::South || f == Direction::East || f
                == Direction::West
            &&& f == left_of(a.facing) || f == right_of(a.facing)
            &&& step_model(g, a).1.in_bounds(step_model(g, a).0)
        }),
{
}

impl Ant {
    pub fn new(x: usize, y: usize, facing: Direction) -> (a: Ant)
        ensures
            a == (Ant { x, y, facing }),
    {
        Ant { x, y, facing }
    }

    /// An ant facing North on the middle cell of `grid`.
    pub fn centered(grid: &Grid) -> (a: Ant)
        requires
            grid.wf(),
        ensures
            a == (Ant {
                x: (grid@.width / 2) as usize,
                y: (grid@.height / 2) as usize,
                facing: Direction::North,
            }),
            a.in_bounds(grid@),
    {
        Ant { x: grid.width() / 2, y: grid.height() / 2, facing: Direction::North }
    }

    pub fn position(&self) -> (r: (usize, usize))
        ensures
            r == (self.x, self.y),
    {
        (self.x, self.y)
    }

    pub fn facing(&self) -> (r: Direction)
        ensures
            r == self.facing,
    {
        self.facing
    }

    /// Advances the simulation by one tick: inverts the cell under the ant, then
    /// turns left if that cell was black (right if it was white) and moves one
    /// cell in the new facing, wrapping around the grid's edges.
    pub fn step(&mut self, grid: &mut Grid)
        requires
            old(grid).wf(),
            old(self).in_bounds(old(grid)@),
        ensures
            final(grid).wf(),
            (final(grid)@, *final(self)) == step_model(old(grid)@, *old(self)),
            final(self).in_bounds(final(grid)@),
    {
        let w = grid.width();
        let h = grid.height();
        let turn_left = grid.flip(self.x, self.y);
        match self.facing {
            Direction::North => {
                if turn_left {
                    self.x = if self.x == 0 { w - 1 } else { self.x - 1 };
                    self.facing = Direction::West;
                } else {
                    self.x = if self.x + 1 == w { 0 } else { self.x + 1 };
                    self.facing = Direction::East;
                }
            },
            Direction::South => {
                if turn_left {
                    self.x = if self.x + 1 == w { 0 } else { self.x + 1 };
                    self.facing = Direction::East;
                } else {
                    self.x = if self.x == 0 { w - 1 } else { self.x - 1 };
                    self.facing = Direction::West;
                }
            },
            Direction::East => {
                if turn_left {
                    self.y = if self.y + 1 == h { 0 } else { self.y + 1 };
                    self.facing = Direction::North;
                } else {
                    self.y = if self.y == 0 { h - 1 } else { self.y - 1 };
                    self.facing = Direction::South;
                }
            },
            Direction::West => {
                if turn_left {
                    self.y = if self.y == 0 { h - 1 } else { self.y - 1 };
                    self.facing = Direction::South;
                } else {
                    self.y = if self.y + 1 == h { 0 } else { self.y + 1 };
                    self.facing = Direction::North;
                }
            },
        }
    }
}

} // verus!

//! The rules of the Game of Life, as mathematics.
//!
//! A board is a finite rectangle of cells. A cell's neighbours are the up
//! to eight cells beside it that lie on the board: the edges do not wrap
//! around, so a cell at the border simply has fewer neighbours.

use crate::raster::{lemma_coordinates_of_offset, lemma_offset_coordinates, lemma_offset_in_bounds, offset};
use vstd::prelude::*;

verus! {

/// One generation: the cells in row-major order, and the rectangle they fill.
pub struct Board {
    pub cells: Seq<bool>,
    pub width: nat,
    pub height: nat,
}

/// Whether a cell with `neighbors` living neighbours lives in the next
/// generation: a living cell survives with two or three of them, a dead cell
/// comes alive with exactly three.
pub open spec fn lives_on(alive: bool, neighbors: int) -> bool {
    if alive {
        neighbors == 2 || neighbors == 3
    } else {
        neighbors == 3
    }
}

impl Board {
    /// The board is not empty and holds one cell per position.
    pub open spec fn wf(self) -> bool {
        &&& self.width > 0
        &&& self.height > 0
        &&& self.cells.len() == self.width * self.height
    }

    /// Whether `(x, y)` lies on the board.
    pub open spec fn contains(self, x: int, y: int) -> bool {
        0 <= x < self.width && 0 <= y < self.height
    }

    /// Whether `(x, y)` is a living cell of the board. Positions outside
    /// the board hold no living cell.
    pub open spec fn alive(self, x: int, y: int) -> bool {
        self.contains(x, y) && self.cells[offset(self.width, x, y)]
    }

    /// One for a living cell at `(x, y)`, zero otherwise.
    pub open spec fn census(self, x: int, y: int) -> int {
        if self.alive(x, y) {
            1
        } else {
            0
        }
    }

    /// The number of living cells among the eight positions around `(x, y)`.
    pub open spec fn neighbors(self, x: int, y: int) -> int {
        self.census(x - 1, y - 1) + self.census(x, y - 1) + self.census(x + 1, y - 1)
            + self.census(x - 1, y) + self.census(x + 1, y)
            + self.census(x - 1, y + 1) + self.census(x, y + 1) + self.census(x + 1, y + 1)
    }

    /// Whether `(x, y)` holds a living cell in the next generation.
    pub open spec fn next_alive(self, x: int, y: int) -> bool {
        lives_on(self.alive(x, y), self.neighbors(x, y))
    }

    /// The next generation: every cell decided from this one alone.
    pub open spec fn next(self) -> Board {
        Board {
            cells: Seq::new(
                self.cells.len(),
                |i: int| self.next_alive(i % (self.width as int), i / (self.width as int)),
            ),
            ..self
        }
    }

    /// The board with the cell at `(x, y)` replaced.
    pub open spec fn with_cell(self, x: int, y: int, alive: bool) -> Board {
        Board { cells: self.cells.update(offset(self.width, x, y), alive), ..self }
    }

    /// Proves that a cell of the next generation is what the rule makes of
    /// the cell at the same position and its neighbours.
    pub proof fn lemma_next_cell(self, x: int, y: int)
        requires
            self.wf(),
            self.contains(x, y),
        ensures
            self.next().wf(),
            self.next().alive(x, y) == self.next_alive(x, y),
    {
        lemma_offset_in_bounds(self.width, self.height, x, y);
        lemma_offset_coordinates(self.width, x, y);
    }

    /// Proves that two boards of one size are the same board if they agree
    /// on which cells live.
    pub proof fn lemma_same_cells(self, other: Board)
        requires
            self.wf(),
            other.wf(),
            self.width == other.width,
            self.height == other.height,
            forall|x: int, y: int|
                self.contains(x, y) ==> self.alive(x, y) == other.alive(x, y),
        ensures
            self == other,
    {
        assert forall|i: int| 0 <= i < self.cells.len() implies self.cells[i] == other.cells[i] by {
            lemma_coordinates_of_offset(self.width, self.height, i);
            let x = i % (self.width as int);
            let y = i / (self.width as int);
            assert(self.alive(x, y) == other.alive(x, y));
        }
        assert(self.cells =~= other.cells);
    }

    /// Proves that replacing a cell changes that cell and no other.
    pub proof fn lemma_with_cell(self, x: int, y: int, alive: bool, u: int, v: int)
        requires
            self.wf(),
            self.contains(x, y),
            self.contains(u, v),
        ensures
            self.with_cell(x, y, alive).wf(),
            self.with_cell(x, y, alive).alive(u, v) == if u == x && v == y {
                alive
            } else {
                self.alive(u, v)
            },
    {
        lemma_offset_in_bounds(self.width, self.height, x, y);
        lemma_offset_in_bounds(self.width, self.height, u, v);
        if offset(self.width, x, y) == offset(self.width, u, v) {
            crate::raster::lemma_offset_injective(self.width, x, y, u, v);
        }
    }
}

/// The four cells of a block: a square of two by two.
pub open spec fn block(x: int, y: int) -> bool {
    0 <= x <= 1 && 0 <= y <= 1
}

/// The three cells of a blinker lying flat, around its middle cell.
pub open spec fn blinker_flat(x: int, y: int) -> bool {
    y == 0 && -1 <= x <= 1
}

/// The three cells of a blinker standing upright, around its middle cell.
pub open spec fn blinker_upright(x: int, y: int) -> bool {
    x == 0 && -1 <= y <= 1
}

/// The five cells of a glider that travels down and to the right, in the
/// phase `phase` of its four, inside a square of four by four.
pub open spec fn glider(phase: int, x: int, y: int) -> bool {
    if phase == 0 {
        (x == 1 && y == 0) || (x == 2 && y == 1) || (0 <= x <= 2 && y == 2)
    } else if phase == 1 {
        (x == 0 && y == 1) || (x == 2 && y == 1) || (1 <= x <= 2 && y == 2) || (x == 1 && y == 3)
    } else if phase == 2 {
        (x == 2 && y == 1) || (x == 0 && y == 2) || (x == 2 && y == 2) || (1 <= x <= 2 && y == 3)
    } else {
        (x == 1 && y == 1) || (2 <= x <= 3 && y == 2) || (1 <= x <= 2 && y == 3)
    }
}

impl Board {
    /// Whether exactly those cells of the board live that `pattern` names
    /// when its origin is put at `(left, top)`.
    pub open spec fn shows(self, pattern: spec_fn(int, int) -> bool, left: int, top: int) -> bool {
        forall|x: int, y: int|
            self.contains(x, y) ==> (#[trigger] self.alive(x, y) <==> pattern(x - left, y - top))
    }

    /// Proves that the number of living neighbours depends on nothing but
    /// the cells beside the position that lie on the board: two boards of one
    /// size that agree on those agree on the number, whatever lives elsewhere.
    pub proof fn lemma_neighbors_local(self, other: Board, x: int, y: int)
        requires
            self.width == other.width,
            self.height == other.height,
            forall|u: int, v: int|
                x - 1 <= u <= x + 1 && y - 1 <= v <= y + 1 && !(u == x && v == y) ==> self.alive(
                    u,
                    v,
                ) == other.alive(u, v),
        ensures
            self.neighbors(x, y) == other.neighbors(x, y),
    {
    }

    /// Proves that the corner cell `(0, 0)` has no neighbours but the three
    /// cells beside it: nothing is counted from the far column or the far row.
    pub proof fn lemma_corner_neighbors(self)
        requires
            self.wf(),
            self.width >= 2,
            self.height >= 2,
        ensures
            self.neighbors(0, 0) == self.census(1, 0) + self.census(0, 1) + self.census(1, 1),
            0 <= self.neighbors(0, 0) <= 3,
    {
    }

    /// Proves that a cell has at most eight living neighbours.
    pub proof fn lemma_neighbors_bounded(self, x: int, y: int)
        ensures
            0 <= self.neighbors(x, y) <= 8,
    {
    }

    /// Proves that a block is stable: the generation after a board that
    /// shows nothing but a block is the same board.
    pub proof fn lemma_block_is_stable(self, left: int, top: int)
        requires
            self.wf(),
            self.contains(left, top),
            self.contains(left + 1, top + 1),
            self.shows(|x: int, y: int| block(x, y), left, top),
        ensures
            self.next() == self,
    {
        assert forall|x: int, y: int| self.contains(x, y) implies self.next().alive(x, y)
            == self.alive(x, y) by {
            self.lemma_next_cell(x, y);
        }
        self.lemma_next_cell(left, top);
        self.next().lemma_same_cells(self);
    }

    /// Proves that a blinker turns: the generation after a board that shows
    /// nothing but a flat blinker away from the border shows the blinker
    /// upright around the same middle cell, and the other way round.
    pub proof fn lemma_blinker_turns(self, x: int, y: int)
        requires
            self.wf(),
            self.contains(x - 1, y - 1),
            self.contains(x + 1, y + 1),
        ensures
            self.shows(|u: int, v: int| blinker_flat(u, v), x, y) ==> self.next().shows(
                |u: int, v: int| blinker_upright(u, v),
                x,
                y,
            ),
            self.shows(|u: int, v: int| blinker_upright(u, v), x, y) ==> self.next().shows(
                |u: int, v: int| blinker_flat(u, v),
                x,
                y,
            ),
    {
        self.lemma_next_cell(x, y);
        if self.shows(|u: int, v: int| blinker_flat(u, v), x, y) {
            assert forall|u: int, v: int| self.contains(u, v) implies (#[trigger] self.next().alive(
                u,
                v,
            ) <==> blinker_upright(u - x, v - y)) by {
                self.lemma_next_cell(u, v);
            }
        }
        if self.shows(|u: int, v: int| blinker_upright(u, v), x, y) {
            assert forall|u: int, v: int| self.contains(u, v) implies (#[trigger] self.next().alive(
                u,
                v,
            ) <==> blinker_flat(u - x, v - y)) by {
                self.lemma_next_cell(u, v);
            }
        }
    }

    /// Proves that a blinker has period two: two generations after a board
    /// that shows nothing but a blinker away from the border, the board is
    /// as it was.
    pub proof fn lemma_blinker_period(self, x: int, y: int)
        requires
            self.wf(),
            self.contains(x - 1, y - 1),
            self.contains(x + 1, y + 1),
            self.shows(|u: int, v: int| blinker_flat(u, v), x, y) || self.shows(
                |u: int, v: int| blinker_upright(u, v),
                x,
                y,
            ),
        ensures
            self.next().next() == self,
            self.next() != self,
    {
        self.lemma_next_cell(x, y);
        self.lemma_blinker_turns(x, y);
        self.next().lemma_blinker_turns(x, y);
        self.next().lemma_next_cell(x, y);
        self.next().next().lemma_same_cells(self);
        assert(self.alive(x - 1, y) != self.next().alive(x - 1, y));
    }

    /// Proves one generation of a glider: a board that shows nothing but a
    /// glider in one phase shows it in the next phase a generation later; and
    /// after the last phase, in the first again, one cell further down and
    /// to the right. The square of four by four has to lie on the board.
    pub proof fn lemma_glider_step(self, phase: int, left: int, top: int)
        requires
            self.wf(),
            0 <= phase <= 3,
            self.contains(left, top),
            self.contains(left + 3, top + 3),
            self.shows(|u: int, v: int| glider(phase, u, v), left, top),
        ensures
            self.next().wf(),
            phase < 3 ==> self.next().shows(|u: int, v: int| glider(phase + 1, u, v), left, top),
            phase == 3 ==> self.next().shows(
                |u: int, v: int| glider(0, u, v),
                left + 1,
                top + 1,
            ),
    {
        self.lemma_next_cell(left, top);
        if phase < 3 {
            assert forall|u: int, v: int| self.contains(u, v) implies (#[trigger] self.next().alive(
                u,
                v,
            ) <==> glider(phase + 1, u - left, v - top)) by {
                self.lemma_next_cell(u, v);
            }
        } else {
            assert forall|u: int, v: int| self.contains(u, v) implies (#[trigger] self.next().alive(
                u,
                v,
            ) <==> glider(0, u - (left + 1), v - (top + 1))) by {
                self.lemma_next_cell(u, v);
            }
        }
    }

    /// Proves that a glider travels: four generations after a board that
    /// shows nothing but a glider, the board shows the same glider one cell
    /// further down and to the right.
    pub proof fn lemma_glider_travels(self, left: int, top: int)
        requires
            self.wf(),
            self.contains(left, top),
            self.contains(left + 3, top + 3),
            self.shows(|u: int, v: int| glider(0, u, v), left, top),
        ensures
            self.next().next().next().next().shows(
                |u: int, v: int| glider(0, u, v),
                left + 1,
                top + 1,
            ),
    {
        self.lemma_glider_step(0, left, top);
        self.next().lemma_glider_step(1, left, top);
        self.next().next().lemma_glider_step(2, left, top);
        self.next().next().next().lemma_glider_step(3, left, top);
    }
}

} // verus!

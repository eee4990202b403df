//! The simulation: two cell buffers of equal size, one of them current, and
//! the clock that decides when the next generation is due.
//!
//! Times are plain numbers in one unit of the caller's choosing
//! (milliseconds are usual); the game never reads a clock itself.

use crate::framebuffer::{Framebuffer, SurfaceState};
use crate::life::{lives_on, Board};
use crate::paint::fill_rect;
use crate::raster::{
    lemma_coordinates_of_offset,
    lemma_offset_coordinates,
    lemma_offset_in_bounds,
    offset,
};
use rand::Rng;
use vstd::arithmetic::div_mod::lemma_fundamental_div_mod_converse;
use vstd::prelude::*;

verus! {

/// Which of the two buffers holds the current generation.
#[derive(Debug, Clone, Copy)]
enum GridSelector {
    Grid1,
    Grid2,
}

/// A step of the cursor.
#[derive(Debug, Clone, Copy, PartialEq, Eq, Structural)]
pub enum CursorDirection {
    Up,
    Down,
    Left,
    Right,
}

/// The time that has passed from `since` to `now`; none if the clock ran
/// backwards.
pub open spec fn elapsed(since: nat, now: nat) -> nat {
    if now >= since {
        (now - since) as nat
    } else {
        0
    }
}

/// The mathematical model of a game.
pub struct GameState {
    /// The current generation.
    pub board: Board,
    /// The other buffer: the generation before the last step.
    pub scratch: Seq<bool>,
    /// The side of the square of pixels that shows one cell.
    pub tile_pixel_size: nat,
    /// The least time between two generations.
    pub update_interval: nat,
    /// When the last generation was computed.
    pub last_update: nat,
    /// When the game was made.
    pub start_time: nat,
    /// The column of the cursor.
    pub cursor_x: nat,
    /// The row of the cursor.
    pub cursor_y: nat,
}

impl GameState {
    /// Both buffers hold one cell per position of a board that is not
    /// empty, and the cursor is on the board.
    pub open spec fn wf(self) -> bool {
        &&& self.board.wf()
        &&& self.scratch.len() == self.board.cells.len()
        &&& self.board.contains(self.cursor_x as int, self.cursor_y as int)
    }

    /// Whether a generation is due at `now`.
    pub open spec fn due(self, now: nat) -> bool {
        elapsed(self.last_update, now) >= self.update_interval
    }

    /// The state after the next generation was computed at `now`.
    pub open spec fn advanced(self, now: nat) -> GameState {
        GameState {
            board: self.board.next(),
            scratch: self.board.cells,
            last_update: now,
            ..self
        }
    }

    /// The state after an update at `now`: the next generation if one is
    /// due, the same state if not.
    pub open spec fn updated(self, now: nat) -> GameState {
        if self.due(now) {
            self.advanced(now)
        } else {
            self
        }
    }

    /// The state with the cell at `(x, y)` replaced.
    pub open spec fn with_cell(self, x: int, y: int, alive: bool) -> GameState {
        GameState { board: self.board.with_cell(x, y, alive), ..self }
    }

    /// The state after the cursor took one step: it stays where it is when
    /// the step would take it off the board.
    pub open spec fn with_cursor_moved(self, direction: CursorDirection) -> GameState {
        match direction {
            CursorDirection::Up => GameState {
                cursor_y: if self.cursor_y > 0 {
                    (self.cursor_y - 1) as nat
                } else {
                    self.cursor_y
                },
                ..self
            },
            CursorDirection::Down => GameState {
                cursor_y: if self.cursor_y + 1 < self.board.height {
                    self.cursor_y + 1
                } else {
                    self.cursor_y
                },
                ..self
            },
            CursorDirection::Left => GameState {
                cursor_x: if self.cursor_x > 0 {
                    (self.cursor_x - 1) as nat
                } else {
                    self.cursor_x
                },
                ..self
            },
            CursorDirection::Right => GameState {
                cursor_x: if self.cursor_x + 1 < self.board.width {
                    self.cursor_x + 1
                } else {
                    self.cursor_x
                },
                ..self
            },
        }
    }

    /// The state with the two buffers exchanged.
    pub open spec fn swapped(self) -> GameState {
        GameState {
            board: Board { cells: self.scratch, ..self.board },
            scratch: self.board.cells,
            ..self
        }
    }
}

impl GameState {
    /// The state after one update at each of `times`, in their order.
    pub open spec fn updated_through(self, times: Seq<nat>) -> GameState
        decreases times.len(),
    {
        if times.len() == 0 {
            self
        } else {
            self.updated(times[0]).updated_through(times.drop_first())
        }
    }

    /// Proves that an update before a generation is due changes nothing.
    pub proof fn lemma_update_too_early(self, now: nat)
        requires
            elapsed(self.last_update, now) < self.update_interval,
        ensures
            self.updated(now) == self,
    {
    }

    /// Proves that an update when a generation is due computes exactly one
    /// generation, keeps the old one, and restarts the clock.
    pub proof fn lemma_update_when_due(self, now: nat)
        requires
            elapsed(self.last_update, now) >= self.update_interval,
        ensures
            self.updated(now).board == self.board.next(),
            self.updated(now).scratch == self.board.cells,
            self.updated(now).last_update == now,
    {
    }

    /// Proves that updates within one interval are idle: after an update
    /// that computed a generation at `first`, updates at any times less than
    /// the interval after `first` leave the state as that update left it,
    /// however many they are and in whatever order they come.
    pub proof fn lemma_updates_in_window(self, first: nat, times: Seq<nat>)
        requires
            self.due(first),
            forall|i: int|
                0 <= i < times.len() ==> elapsed(first, #[trigger] times[i]) < self.update_interval,
        ensures
            self.updated(first).updated_through(times) == self.updated(first),
        decreases times.len(),
    {
        if times.len() > 0 {
            let rest = times.drop_first();
            assert(elapsed(first, times[0]) < self.update_interval);
            assert(self.updated(first).updated(times[0]) == self.updated(first));
            assert forall|i: int| 0 <= i < rest.len() implies elapsed(first, #[trigger] rest[i])
                < self.update_interval by {
                assert(rest[i] == times[i + 1]);
            }
            self.lemma_updates_in_window(first, rest);
        }
    }
}

/// The colour that dead cells are painted in.
pub const DEAD_COLOR: u32 = 0x000000;

/// The colour of the cell at `(x, y)`: its entry of the palette, which is in
/// row-major order like the cells, if it is alive, and black if it is dead.
pub open spec fn cell_color(board: Board, palette: Seq<u32>, x: int, y: int) -> u32 {
    if board.alive(x, y) {
        palette[offset(board.width, x, y)]
    } else {
        DEAD_COLOR
    }
}

/// The surface after a board was painted on it: every cell is a square of
/// `tile * tile` pixels in the cell's colour, the cell `(0, 0)` in the top
/// left corner. Pixels beside the board keep their colour.
pub open spec fn painted<L>(
    surface: SurfaceState<L>,
    board: Board,
    palette: Seq<u32>,
    tile: int,
) -> SurfaceState<L> {
    SurfaceState {
        pixels: Seq::new(
            surface.pixels.len(),
            |i: int|
                {
                    let x = i % (surface.width as int);
                    let y = i / (surface.width as int);
                    if x < board.width * tile && y < board.height * tile {
                        cell_color(board, palette, x / tile, y / tile)
                    } else {
                        surface.pixels[i]
                    }
                },
        ),
        ..surface
    }
}

/// Proves what colour a pixel has after a board was painted: the colour of
/// the cell whose square it lies in, or its old colour beside the board.
pub proof fn lemma_painted_pixel<L>(
    surface: SurfaceState<L>,
    board: Board,
    palette: Seq<u32>,
    tile: int,
    x: int,
    y: int,
)
    requires
        surface.wf(),
        0 <= x < surface.width,
        0 <= y < surface.height,
    ensures
        painted(surface, board, palette, tile).wf(),
        painted(surface, board, palette, tile).pixel(x, y) == if x < board.width * tile && y
            < board.height * tile {
            cell_color(board, palette, x / tile, y / tile)
        } else {
            surface.pixel(x, y)
        },
{
    lemma_offset_in_bounds(surface.width, surface.height, x, y);
    lemma_offset_coordinates(surface.width, x, y);
}

/// The surface after the cells that come before `(cx, cy)` in row-major
/// order were painted on it.
spec fn painted_before<L>(
    surface: SurfaceState<L>,
    board: Board,
    palette: Seq<u32>,
    tile: int,
    cx: int,
    cy: int,
) -> SurfaceState<L> {
    SurfaceState {
        pixels: Seq::new(
            surface.pixels.len(),
            |i: int|
                {
                    let x = i % (surface.width as int);
                    let y = i / (surface.width as int);
                    if (x < board.width * tile && y < cy * tile) || (x < cx * tile && cy * tile
                        <= y < cy * tile + tile) {
                        cell_color(board, palette, x / tile, y / tile)
                    } else {
                        surface.pixels[i]
                    }
                },
        ),
        ..surface
    }
}

/// Proves that painting the cell `(cx, cy)` after those before it paints
/// all cells before the one that follows it in the row.
proof fn lemma_painted_one_more<L>(
    surface: SurfaceState<L>,
    board: Board,
    palette: Seq<u32>,
    tile: int,
    cx: int,
    cy: int,
)
    requires
        surface.wf(),
        0 <= tile,
        0 <= cx < board.width,
        0 <= cy,
    ensures
        painted_before(surface, board, palette, tile, cx, cy).filled(
            cx * tile,
            cy * tile,
            tile,
            tile,
            cell_color(board, palette, cx, cy),
        ) == painted_before(surface, board, palette, tile, cx + 1, cy),
{
    let done = painted_before(surface, board, palette, tile, cx, cy);
    let color = cell_color(board, palette, cx, cy);
    let more = done.filled(cx * tile, cy * tile, tile, tile, color);
    let wanted = painted_before(surface, board, palette, tile, cx + 1, cy);
    assert((cx + 1) * tile == cx * tile + tile) by (nonlinear_arith);
    assert((cx + 1) * tile <= board.width * tile) by (nonlinear_arith)
        requires
            0 <= tile,
            cx + 1 <= board.width,
    ;
    assert forall|i: int| 0 <= i < surface.pixels.len() implies more.pixels[i]
        == wanted.pixels[i] by {
        lemma_coordinates_of_offset(surface.width, surface.height, i);
        let x = i % (surface.width as int);
        let y = i / (surface.width as int);
        if cx * tile <= x < cx * tile + tile && cy * tile <= y < cy * tile + tile {
            lemma_fundamental_div_mod_converse(x, tile, cx, x - cx * tile);
            lemma_fundamental_div_mod_converse(y, tile, cy, y - cy * tile);
        }
    }
    assert(more.pixels =~= wanted.pixels);
}

/// Proves that a row of cells painted to its end is the start of the row
/// below it.
proof fn lemma_painted_row<L>(
    surface: SurfaceState<L>,
    board: Board,
    palette: Seq<u32>,
    tile: int,
    cy: int,
)
    requires
        surface.wf(),
        0 <= tile,
        0 <= cy,
    ensures
        painted_before(surface, board, palette, tile, board.width as int, cy) == painted_before(
            surface,
            board,
            palette,
            tile,
            0,
            cy + 1,
        ),
{
    let ended = painted_before(surface, board, palette, tile, board.width as int, cy);
    let begun = painted_before(surface, board, palette, tile, 0, cy + 1);
    assert((cy + 1) * tile == cy * tile + tile) by (nonlinear_arith);
    assert(0 * tile == 0) by (nonlinear_arith);
    assert forall|i: int| 0 <= i < surface.pixels.len() implies ended.pixels[i]
        == begun.pixels[i] by {
        lemma_coordinates_of_offset(surface.width, surface.height, i);
    }
    assert(ended.pixels =~= begun.pixels);
}

/// Proves that before the first cell nothing is painted, and before the row
/// after the last everything is.
proof fn lemma_painted_ends<L>(
    surface: SurfaceState<L>,
    board: Board,
    palette: Seq<u32>,
    tile: int,
)
    requires
        surface.wf(),
        0 <= tile,
    ensures
        painted_before(surface, board, palette, tile, 0, 0) == surface,
        painted_before(surface, board, palette, tile, 0, board.height as int) == painted(
            surface,
            board,
            palette,
            tile,
        ),
{
    let first = painted_before(surface, board, palette, tile, 0, 0);
    let last = painted_before(surface, board, palette, tile, 0, board.height as int);
    let whole = painted(surface, board, palette, tile);
    assert(0 * tile == 0) by (nonlinear_arith);
    assert forall|i: int| 0 <= i < surface.pixels.len() implies first.pixels[i]
        == surface.pixels[i] && last.pixels[i] == whole.pixels[i] by {
        lemma_coordinates_of_offset(surface.width, surface.height, i);
    }
    assert(first.pixels =~= surface.pixels);
    assert(last.pixels =~= whole.pixels);
}

/// The living cells among the positions of the column `dx` beside `x` that
/// come before row offset `dy`, the cell `(x, y)` itself left out.
spec fn column_before(board: Board, x: int, y: int, dx: int, dy: int) -> int {
    (if dy > -1 {
        board.census(x + dx, y - 1)
    } else {
        0
    }) + (if dy > 0 && dx != 0 {
        board.census(x + dx, y)
    } else {
        0
    }) + (if dy > 1 {
        board.census(x + dx, y + 1)
    } else {
        0
    })
}

/// The living cells in the columns around `(x, y)` that come before column
/// offset `dx`.
spec fn columns_before(board: Board, x: int, y: int, dx: int) -> int {
    (if dx > -1 {
        column_before(board, x, y, -1, 2)
    } else {
        0
    }) + (if dx > 0 {
        column_before(board, x, y, 0, 2)
    } else {
        0
    }) + (if dx > 1 {
        column_before(board, x, y, 1, 2)
    } else {
        0
    })
}

/// A game of life: its cells, the size of a cell on screen, and its clock.
pub struct Game {
    grid_1: Vec<bool>,
    grid_2: Vec<bool>,
    current_grid: GridSelector,
    grid_width: u16,
    grid_height: u16,
    tile_pixel_size: u16,
    update_interval: u64,
    last_update: u64,
    start_time: u64,
    cursor_x: u16,
    cursor_y: u16,
}

/// Counts the living neighbours of `(x, y)` in a buffer of cells.
fn count_alive_neighbors_in(cells: &Vec<bool>, width: u16, height: u16, x: u16, y: u16) -> (count:
    u8)
    requires
        cells@.len() == width * height,
        x < width,
        y < height,
    ensures
        count == (Board { cells: cells@, width: width as nat, height: height as nat }).neighbors(
            x as int,
            y as int,
        ),
{
    let ghost board = Board { cells: cells@, width: width as nat, height: height as nat };
    let mut count: u8 = 0;
    let mut i: i32 = -1;
    while i <= 1
        invariant
            -1 <= i <= 2,
            cells@.len() == width * height,
            x < width,
            y < height,
            board == (Board { cells: cells@, width: width as nat, height: height as nat }),
            count == columns_before(board, x as int, y as int, i as int),
        decreases 2 - i,
    {
        let mut j: i32 = -1;
        while j <= 1
            invariant
                -1 <= i <= 1,
                -1 <= j <= 2,
                cells@.len() == width * height,
                x < width,
                y < height,
                board == (Board { cells: cells@, width: width as nat, height: height as nat }),
                count == columns_before(board, x as int, y as int, i as int) + column_before(
                    board,
                    x as int,
                    y as int,
                    i as int,
                    j as int,
                ),
            decreases 2 - j,
        {
            if !(i == 0 && j == 0) {
                let nx: i32 = x as i32 + i;
                let ny: i32 = y as i32 + j;
                if nx >= 0 && nx < width as i32 && ny >= 0 && ny < height as i32 {
                    proof {
                        lemma_offset_in_bounds(width as nat, height as nat, nx as int, ny as int);
                        assert(cells@.len() == cells.len());
                    }
                    let at: usize = ny as usize * width as usize + nx as usize;
                    if cells[at] {
                        count += 1;
                    }
                }
            }
            j += 1;
        }
        i += 1;
    }
    count
}

/// Computes the generation after `current` into `next`, reading `current`
/// alone.
fn compute_generation(current: &Vec<bool>, next: &mut Vec<bool>, width: u16, height: u16)
    requires
        width > 0,
        height > 0,
        current@.len() == width * height,
        old(next)@.len() == width * height,
    ensures
        final(next)@ == (Board {
            cells: current@,
            width: width as nat,
            height: height as nat,
        }).next().cells,
{
    let ghost board = Board { cells: current@, width: width as nat, height: height as nat };
    let ghost target = board.next().cells;
    let mut y: u16 = 0;
    while y < height
        invariant
            width > 0,
            y <= height,
            current@.len() == width * height,
            next@.len() == width * height,
            board == (Board { cells: current@, width: width as nat, height: height as nat }),
            target == board.next().cells,
            forall|i: int| 0 <= i < y * width ==> next@[i] == target[i],
        decreases height - y,
    {
        let mut x: u16 = 0;
        while x < width
            invariant
                width > 0,
                y < height,
                x <= width,
                current@.len() == width * height,
                next@.len() == width * height,
                board == (Board { cells: current@, width: width as nat, height: height as nat }),
                target == board.next().cells,
                forall|i: int| 0 <= i < y * width + x ==> next@[i] == target[i],
            decreases width - x,
        {
            proof {
                lemma_offset_in_bounds(width as nat, height as nat, x as int, y as int);
                lemma_offset_coordinates(width as nat, x as int, y as int);
                assert(current@.len() == current.len());
            }
            let neighbors: u8 = count_alive_neighbors_in(current, width, height, x, y);
            let at: usize = y as usize * width as usize + x as usize;
            let lives: bool = if current[at] {
                neighbors == 2 || neighbors == 3
            } else {
                neighbors == 3
            };
            assert(lives == lives_on(board.alive(x as int, y as int), neighbors as int));
            next.set(at, lives);
            x += 1;
        }
        assert((y + 1) * width == y * width + width) by (nonlinear_arith);
        y += 1;
    }
    assert(height * width == width * height) by (nonlinear_arith);
    assert(next@ =~= target);
}

/// Draws one cell from the generator that `rand::thread_rng` hands out, by
/// `rand::Rng::gen_ratio`: alive with a chance of `numerator` in
/// `denominator`. Nothing is claimed of a single draw but what `gen_ratio`
/// documents of the two certain ratios: with the numerator equal to the
/// denominator the draw is always alive, with a numerator of zero always
/// dead. The ratios on which `gen_ratio` panics are left out.
#[verifier::external_body]
fn random_cell(numerator: u32, denominator: u32) -> (is_alive: bool)
    requires
        denominator > 0,
        numerator <= denominator,
    ensures
        numerator == denominator ==> is_alive,
        numerator == 0 ==> !is_alive,
{
    rand::thread_rng().gen_ratio(numerator, denominator)
}

impl Game {
    /// The game as a mathematical value.
    pub closed spec fn view(&self) -> GameState {
        GameState {
            board: Board {
                cells: match self.current_grid {
                    GridSelector::Grid1 => self.grid_1@,
                    GridSelector::Grid2 => self.grid_2@,
                },
                width: self.grid_width as nat,
                height: self.grid_height as nat,
            },
            scratch: match self.current_grid {
                GridSelector::Grid1 => self.grid_2@,
                GridSelector::Grid2 => self.grid_1@,
            },
            tile_pixel_size: self.tile_pixel_size as nat,
            update_interval: self.update_interval as nat,
            last_update: self.last_update as nat,
            start_time: self.start_time as nat,
            cursor_x: self.cursor_x as nat,
            cursor_y: self.cursor_y as nat,
        }
    }

    /// Makes a game of `width * height` dead cells whose clock starts at `now`.
    pub fn new(
        width: u16,
        height: u16,
        tile_pixel_size: u16,
        update_interval: u64,
        now: u64,
    ) -> (game: Self)
        requires
            width > 0,
            height > 0,
            width * height <= isize::MAX,
        ensures
            game@.wf(),
            game@.board.width == width,
            game@.board.height == height,
            game@.board.cells == Seq::new((width * height) as nat, |i: int| false),
            game@.scratch == game@.board.cells,
            game@.tile_pixel_size == tile_pixel_size,
            game@.update_interval == update_interval,
            game@.last_update == now,
            game@.start_time == now,
            game@.cursor_x == 0,
            game@.cursor_y == 0,
    {
        assert(width * height <= 0xFFFF * 0xFFFF) by (nonlinear_arith)
            requires
                0 <= width <= 0xFFFF,
                0 <= height <= 0xFFFF,
        ;
        let size: usize = width as usize * height as usize;
        let grid_1: Vec<bool> = vec![false; size];
        let grid_2: Vec<bool> = vec![false; size];
        assert(grid_1@ =~= Seq::new((width * height) as nat, |i: int| false));
        assert(grid_2@ =~= grid_1@);
        Game {
            grid_1,
            grid_2,
            current_grid: GridSelector::Grid1,
            grid_width: width,
            grid_height: height,
            tile_pixel_size,
            update_interval,
            last_update: now,
            start_time: now,
            cursor_x: 0,
            cursor_y: 0,
        }
    }

    /// The number of columns of the board.
    pub fn width(&self) -> (width: u16)
        ensures
            width == self@.board.width,
    {
        self.grid_width
    }

    /// The number of rows of the board.
    pub fn height(&self) -> (height: u16)
        ensures
            height == self@.board.height,
    {
        self.grid_height
    }

    /// The side of the square of pixels that shows one cell.
    pub fn tile_pixel_size(&self) -> (size: u16)
        ensures
            size == self@.tile_pixel_size,
    {
        self.tile_pixel_size
    }

    /// The least time between two generations.
    pub fn update_interval(&self) -> (interval: u64)
        ensures
            interval == self@.update_interval,
    {
        self.update_interval
    }

    /// When the last generation was computed.
    pub fn last_update(&self) -> (at: u64)
        ensures
            at == self@.last_update,
    {
        self.last_update
    }

    /// The time from the making of the game to `now`.
    pub fn elapsed_since_start(&self, now: u64) -> (passed: u64)
        ensures
            passed == elapsed(self@.start_time, now as nat),
    {
        if now >= self.start_time {
            now - self.start_time
        } else {
            0
        }
    }

    /// Makes the other buffer the current one.
    pub fn swap_grids(&mut self)
        ensures
            final(self)@ == old(self)@.swapped(),
    {
        self.current_grid = match self.current_grid {
            GridSelector::Grid1 => GridSelector::Grid2,
            GridSelector::Grid2 => GridSelector::Grid1,
        };
    }

    /// The offset of the cell at `(x, y)` in either buffer.
    pub fn calc_grid_idx(&self, x: u16, y: u16) -> (idx: usize)
        requires
            self@.wf(),
            self@.board.contains(x as int, y as int),
        ensures
            idx == offset(self@.board.width, x as int, y as int),
            idx < self@.board.cells.len(),
    {
        proof {
            lemma_offset_in_bounds(
                self.grid_width as nat,
                self.grid_height as nat,
                x as int,
                y as int,
            );
            assert(self.grid_1@.len() == self.grid_1.len());
            assert(self.grid_2@.len() == self.grid_2.len());
        }
        y as usize * self.grid_width as usize + x as usize
    }

    /// The cells of the current generation in row-major order.
    pub fn get_current_grid(&self) -> (cells: &Vec<bool>)
        ensures
            cells@ == self@.board.cells,
    {
        match self.current_grid {
            GridSelector::Grid1 => &self.grid_1,
            GridSelector::Grid2 => &self.grid_2,
        }
    }

    /// The cells of the other buffer in row-major order.
    pub fn get_next_grid(&self) -> (cells: &Vec<bool>)
        ensures
            cells@ == self@.scratch,
    {
        match self.current_grid {
            GridSelector::Grid1 => &self.grid_2,
            GridSelector::Grid2 => &self.grid_1,
        }
    }

    /// The cells of the current generation, to be changed in place. The
    /// buffer has to keep its length.
    pub fn get_current_grid_mut(&mut self) -> (cells: &mut Vec<bool>)
        ensures
            cells@ == old(self)@.board.cells,
            final(self)@ == (GameState {
                board: Board { cells: final(cells)@, ..old(self)@.board },
                ..old(self)@
            }),
    {
        match self.current_grid {
            GridSelector::Grid1 => &mut self.grid_1,
            GridSelector::Grid2 => &mut self.grid_2,
        }
    }

    /// Whether the cell at `(x, y)` is alive.
    pub fn get_tile(&self, x: u16, y: u16) -> (is_alive: bool)
        requires
            self@.wf(),
            self@.board.contains(x as int, y as int),
        ensures
            is_alive == self@.board.alive(x as int, y as int),
    {
        let idx: usize = self.calc_grid_idx(x, y);
        self.get_current_grid()[idx]
    }

    /// Sets the cell at `(x, y)`; the clock is left alone.
    pub fn set_tile(&mut self, is_alive: bool, x: u16, y: u16)
        requires
            old(self)@.wf(),
            old(self)@.board.contains(x as int, y as int),
        ensures
            final(self)@ == old(self)@.with_cell(x as int, y as int, is_alive),
            final(self)@.wf(),
    {
        let idx: usize = self.calc_grid_idx(x, y);
        match self.current_grid {
            GridSelector::Grid1 => self.grid_1.set(idx, is_alive),
            GridSelector::Grid2 => self.grid_2.set(idx, is_alive),
        }
    }

    /// Flips the cell at `(x, y)` without advancing the simulation.
    pub fn toggle_cell(&mut self, x: u16, y: u16)
        requires
            old(self)@.wf(),
            old(self)@.board.contains(x as int, y as int),
        ensures
            final(self)@ == old(self)@.with_cell(
                x as int,
                y as int,
                !old(self)@.board.alive(x as int, y as int),
            ),
            final(self)@.wf(),
    {
        let is_alive: bool = self.get_tile(x, y);
        self.set_tile(!is_alive, x, y);
    }

    /// The column of the cursor.
    pub fn cursor_x(&self) -> (x: u16)
        ensures
            x == self@.cursor_x,
    {
        self.cursor_x
    }

    /// The row of the cursor.
    pub fn cursor_y(&self) -> (y: u16)
        ensures
            y == self@.cursor_y,
    {
        self.cursor_y
    }

    /// Moves the cursor one step, unless that would take it off the board.
    pub fn move_cursor(&mut self, direction: CursorDirection)
        requires
            old(self)@.wf(),
        ensures
            final(self)@ == old(self)@.with_cursor_moved(direction),
            final(self)@.wf(),
    {
        match direction {
            CursorDirection::Up => {
                if self.cursor_y > 0 {
                    self.cursor_y = self.cursor_y - 1;
                }
            },
            CursorDirection::Down => {
                if self.cursor_y < self.grid_height - 1 {
                    self.cursor_y = self.cursor_y + 1;
                }
            },
            CursorDirection::Left => {
                if self.cursor_x > 0 {
                    self.cursor_x = self.cursor_x - 1;
                }
            },
            CursorDirection::Right => {
                if self.cursor_x < self.grid_width - 1 {
                    self.cursor_x = self.cursor_x + 1;
                }
            },
        }
    }

    /// Flips the cell under the cursor without advancing the simulation.
    pub fn toggle_at_cursor(&mut self)
        requires
            old(self)@.wf(),
        ensures
            final(self)@ == old(self)@.with_cell(
                old(self)@.cursor_x as int,
                old(self)@.cursor_y as int,
                !old(self)@.board.alive(old(self)@.cursor_x as int, old(self)@.cursor_y as int),
            ),
            final(self)@.wf(),
    {
        self.toggle_cell(self.cursor_x, self.cursor_y);
    }

    /// Counts the living cells among the up to eight neighbours of `(x, y)`
    /// that lie on the board.
    pub fn count_alive_neighbors(&self, x: u16, y: u16) -> (count: u8)
        requires
            self@.wf(),
            self@.board.contains(x as int, y as int),
        ensures
            count == self@.board.neighbors(x as int, y as int),
    {
        count_alive_neighbors_in(self.get_current_grid(), self.grid_width, self.grid_height, x, y)
    }

    /// Overwrites every cell of the current generation with a random one,
    /// alive with a chance of `numerator` in `denominator`, each drawn on its
    /// own. The other buffer and the clock are left alone.
    pub fn seed(&mut self, numerator: u32, denominator: u32)
        requires
            old(self)@.wf(),
            denominator > 0,
            numerator <= denominator,
        ensures
            final(self)@.wf(),
            final(self)@ == (GameState {
                board: Board { cells: final(self)@.board.cells, ..old(self)@.board },
                ..old(self)@
            }),
            numerator == denominator ==> forall|i: int|
                0 <= i < final(self)@.board.cells.len() ==> final(self)@.board.cells[i],
            numerator == 0 ==> forall|i: int|
                0 <= i < final(self)@.board.cells.len() ==> !final(self)@.board.cells[i],
    {
        let ghost before = self@;
        let width: u16 = self.grid_width;
        let height: u16 = self.grid_height;
        let mut y: u16 = 0;
        while y < height
            invariant
                self@.wf(),
                self@.board.width == width,
                self@.board.height == height,
                y <= height,
                denominator > 0,
                numerator <= denominator,
                self@ == (GameState {
                    board: Board { cells: self@.board.cells, ..before.board },
                    ..before
                }),
                numerator == denominator ==> forall|i: int|
                    0 <= i < y * width ==> self@.board.cells[i],
                numerator == 0 ==> forall|i: int| 0 <= i < y * width ==> !self@.board.cells[i],
            decreases height - y,
        {
            let mut x: u16 = 0;
            while x < width
                invariant
                    self@.wf(),
                    self@.board.width == width,
                    self@.board.height == height,
                    y < height,
                    x <= width,
                    denominator > 0,
                    numerator <= denominator,
                    self@ == (GameState {
                        board: Board { cells: self@.board.cells, ..before.board },
                        ..before
                    }),
                    numerator == denominator ==> forall|i: int|
                        0 <= i < y * width + x ==> self@.board.cells[i],
                    numerator == 0 ==> forall|i: int|
                        0 <= i < y * width + x ==> !self@.board.cells[i],
                decreases width - x,
            {
                proof {
                    lemma_offset_in_bounds(width as nat, height as nat, x as int, y as int);
                }
                let is_alive: bool = random_cell(numerator, denominator);
                self.set_tile(is_alive, x, y);
                x += 1;
            }
            assert((y + 1) * width == y * width + width) by (nonlinear_arith);
            y += 1;
        }
        assert(height * width == width * height) by (nonlinear_arith);
    }

    /// Seeds the board at random, one cell in twenty-five alive.
    pub fn generate(&mut self)
        requires
            old(self)@.wf(),
        ensures
            final(self)@.wf(),
            final(self)@ == (GameState {
                board: Board { cells: final(self)@.board.cells, ..old(self)@.board },
                ..old(self)@
            }),
    {
        self.seed(1, 25);
    }

    /// Advances the simulation if a generation is due at `now`, and does
    /// nothing if not. Every cell of the new generation is computed from the
    /// old one alone; the old one is kept in the other buffer.
    pub fn update(&mut self, now: u64)
        requires
            old(self)@.wf(),
        ensures
            final(self)@ == old(self)@.updated(now as nat),
            final(self)@.wf(),
    {
        let passed: u64 = if now >= self.last_update {
            now - self.last_update
        } else {
            0
        };
        if passed >= self.update_interval {
            match self.current_grid {
                GridSelector::Grid1 => compute_generation(
                    &self.grid_1,
                    &mut self.grid_2,
                    self.grid_width,
                    self.grid_height,
                ),
                GridSelector::Grid2 => compute_generation(
                    &self.grid_2,
                    &mut self.grid_1,
                    self.grid_width,
                    self.grid_height,
                ),
            }
            self.swap_grids();
            self.last_update = now;
        }
    }

    /// Fills the square of pixels that shows the cell `(x, y)` with `color`.
    /// The square has to lie on the surface.
    pub fn render_tile<F: Framebuffer>(&self, fb: &mut F, color: u32, x: u16, y: u16)
        requires
            old(fb)@.wf(),
            (x + 1) * self@.tile_pixel_size <= old(fb)@.width,
            (y + 1) * self@.tile_pixel_size <= old(fb)@.height,
        ensures
            final(fb)@ == old(fb)@.filled(
                x * self@.tile_pixel_size,
                y * self@.tile_pixel_size,
                self@.tile_pixel_size as int,
                self@.tile_pixel_size as int,
                color,
            ),
            final(fb)@.wf(),
    {
        let tile: u32 = self.tile_pixel_size as u32;
        assert(x * tile <= 0xFFFF * 0xFFFF && y * tile <= 0xFFFF * 0xFFFF) by (nonlinear_arith)
            requires
                0 <= x <= 0xFFFF,
                0 <= y <= 0xFFFF,
                0 <= tile <= 0xFFFF,
        ;
        assert((x + 1) * tile == x * tile + tile && (y + 1) * tile == y * tile + tile)
            by (nonlinear_arith);
        fill_rect(fb, x as u32 * tile, y as u32 * tile, tile, tile, color);
    }

    /// Paints the current generation: every living cell in its colour of
    /// `palette`, which holds one colour per cell in row-major order, every
    /// dead cell black. The board has to fit on the surface.
    pub fn render<F: Framebuffer>(&self, fb: &mut F, palette: &Vec<u32>)
        requires
            self@.wf(),
            old(fb)@.wf(),
            palette@.len() == self@.board.cells.len(),
            self@.board.width * self@.tile_pixel_size <= old(fb)@.width,
            self@.board.height * self@.tile_pixel_size <= old(fb)@.height,
        ensures
            final(fb)@ == painted(
                old(fb)@,
                self@.board,
                palette@,
                self@.tile_pixel_size as int,
            ),
            final(fb)@.wf(),
    {
        let ghost before = fb@;
        let ghost board = self@.board;
        let ghost tile = self.tile_pixel_size as int;
        let width: u16 = self.grid_width;
        let height: u16 = self.grid_height;
        proof {
            lemma_painted_ends(before, board, palette@, tile);
        }
        let mut y: u16 = 0;
        while y < height
            invariant
                self@.wf(),
                before.wf(),
                board == self@.board,
                tile == self@.tile_pixel_size,
                width == board.width,
                height == board.height,
                y <= height,
                palette@.len() == board.cells.len(),
                board.width * tile <= before.width,
                board.height * tile <= before.height,
                fb@.wf(),
                fb@ == painted_before(before, board, palette@, tile, 0, y as int),
            decreases height - y,
        {
            let mut x: u16 = 0;
            while x < width
                invariant
                    self@.wf(),
                    before.wf(),
                    board == self@.board,
                    tile == self@.tile_pixel_size,
                    width == board.width,
                    height == board.height,
                    y < height,
                    x <= width,
                    palette@.len() == board.cells.len(),
                    board.width * tile <= before.width,
                    board.height * tile <= before.height,
                    fb@.wf(),
                    fb@ == painted_before(before, board, palette@, tile, x as int, y as int),
                decreases width - x,
            {
                let idx: usize = self.calc_grid_idx(x, y);
                let color: u32 = if self.get_current_grid()[idx] {
                    palette[idx]
                } else {
                    DEAD_COLOR
                };
                proof {
                    assert(color == cell_color(board, palette@, x as int, y as int));
                    assert((x + 1) * tile <= board.width * tile) by (nonlinear_arith)
                        requires
                            0 <= tile,
                            x + 1 <= board.width,
                    ;
                    assert((y + 1) * tile <= board.height * tile) by (nonlinear_arith)
                        requires
                            0 <= tile,
                            y + 1 <= board.height,
                    ;
                    lemma_painted_one_more(before, board, palette@, tile, x as int, y as int);
                }
                self.render_tile(fb, color, x, y);
                x += 1;
            }
            proof {
                lemma_painted_row(before, board, palette@, tile, y as int);
            }
            y += 1;
        }
    }
}

} // verus!

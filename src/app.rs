use vstd::prelude::*;

use crate::random::{fresh_bag, is_bag, random_below};
use crate::tetromino::{Tetromino, shape_of, tetromino_shape, blank_tetromino, lemma_shapes_solid, KIND_COUNT};

verus! {

/// Rows of the backing grid, the spawn rows at the top included.
pub const HEIGHT: usize = 24;

/// Columns of the backing grid.
pub const WIDTH: usize = 14;

/// Leftmost playable column.
pub const PLAY_LEFT: usize = 4;

/// Rightmost playable column.
pub const PLAY_RIGHT: usize = 13;

/// Anchor column at which new pieces appear.
pub const START_X: usize = 7;

/// Anchor row at which new pieces appear.
pub const START_Y: usize = 4;

/// The queue is refilled with a fresh bag when it holds fewer pieces than this.
pub const QUEUE_LOW_WATER: usize = 7;

/// Ticks between two downward steps at the first level.
pub const DEFAULT_TICK_TARGET: u32 = 15;

/// One cell of the playfield.
#[derive(Debug, Clone, Copy, PartialEq, Eq, Structural)]
pub struct PlayFieldCell {
    /// Part of the footprint of the active piece.
    pub falling: bool,
    /// Permanently occupied.
    pub landed: bool,
}

impl Default for PlayFieldCell {
    fn default() -> (c: PlayFieldCell)
        ensures
            c == empty_cell(),
    {
        PlayFieldCell { falling: false, landed: false }
    }
}

pub open spec fn empty_cell() -> PlayFieldCell {
    PlayFieldCell { falling: false, landed: false }
}

/// `c` with its falling flag set, or with its landed flag set.
pub open spec fn painted(c: PlayFieldCell, as_landed: bool) -> PlayFieldCell {
    if as_landed {
        PlayFieldCell { falling: c.falling, landed: true }
    } else {
        PlayFieldCell { falling: true, landed: c.landed }
    }
}

/// Whether `g` has `HEIGHT` rows of `WIDTH` cells each.
pub open spec fn grid_shaped(g: Seq<Seq<PlayFieldCell>>) -> bool {
    &&& g.len() == HEIGHT
    &&& forall|i: int| 0 <= i < g.len() ==> (#[trigger] g[i]).len() == WIDTH
}

/// Whether grid cell (`i`, `j`) lies under an occupied mask cell of rotation
/// `r` of `t` anchored at (`px`, `py`).
pub open spec fn covers(t: Tetromino, r: int, px: int, py: int, i: int, j: int) -> bool {
    &&& py <= i < py + 4
    &&& px <= j < px + 4
    &&& t.occupied(r, i - py, j - px)
}

/// `g` with every falling flag reset.
pub open spec fn without_falling(g: Seq<Seq<PlayFieldCell>>) -> Seq<Seq<PlayFieldCell>> {
    Seq::new(
        g.len(),
        |i: int| Seq::new(g[i].len(), |j: int| PlayFieldCell { falling: false, landed: g[i][j].landed }),
    )
}

/// `g` with the footprint of the piece marked falling.
pub open spec fn with_falling(g: Seq<Seq<PlayFieldCell>>, t: Tetromino, r: int, px: int, py: int) -> Seq<Seq<PlayFieldCell>> {
    Seq::new(
        g.len(),
        |i: int|
            Seq::new(
                g[i].len(),
                |j: int| PlayFieldCell { falling: g[i][j].falling || covers(t, r, px, py, i, j), landed: g[i][j].landed },
            ),
    )
}

/// `g` with the footprint of the piece marked landed.
pub open spec fn with_landed(g: Seq<Seq<PlayFieldCell>>, t: Tetromino, r: int, px: int, py: int) -> Seq<Seq<PlayFieldCell>> {
    Seq::new(
        g.len(),
        |i: int|
            Seq::new(
                g[i].len(),
                |j: int| PlayFieldCell { falling: g[i][j].falling, landed: g[i][j].landed || covers(t, r, px, py, i, j) },
            ),
    )
}

/// A row of empty cells.
pub open spec fn empty_row() -> Seq<PlayFieldCell> {
    Seq::new(WIDTH as nat, |j: int| empty_cell())
}

/// Whether every playable cell of `row` is landed.
pub open spec fn row_full(row: Seq<PlayFieldCell>) -> bool {
    forall|j: int| PLAY_LEFT <= j <= PLAY_RIGHT ==> (#[trigger] row[j]).landed
}

/// How many rows of `g` are full.
pub open spec fn full_rows(g: Seq<Seq<PlayFieldCell>>) -> nat {
    g.filter(|r: Seq<PlayFieldCell>| row_full(r)).len()
}

/// `g` without its full rows, with as many empty rows on top.
pub open spec fn rows_cleared(g: Seq<Seq<PlayFieldCell>>) -> Seq<Seq<PlayFieldCell>> {
    Seq::new(full_rows(g), |i: int| empty_row()) + g.filter(|r: Seq<PlayFieldCell>| !row_full(r))
}

/// Marks a search for the shortest drop over a piece with no occupied cell.
pub const NO_CELL: usize = 25;

/// How many cells of column `cx`, from row `cy` down, are inside `g` and not
/// landed before the first that is outside or landed.
pub open spec fn free_run(g: Seq<Seq<PlayFieldCell>>, cx: int, cy: int) -> nat
    decreases g.len() - cy,
{
    if 0 <= cy < g.len() && 0 <= cx < g[cy].len() && !g[cy][cx].landed {
        1 + free_run(g, cx, cy + 1)
    } else {
        0
    }
}

/// The least `free_run` under the first `k` mask cells (row by row) that
/// are occupied, or `NO_CELL` when none of them is.
pub open spec fn min_run(g: Seq<Seq<PlayFieldCell>>, t: Tetromino, r: int, px: int, py: int, k: int) -> nat
    decreases k,
{
    if k <= 0 {
        NO_CELL as nat
    } else {
        let m = min_run(g, t, r, px, py, k - 1);
        let my = (k - 1) / 4;
        let mx = (k - 1) % 4;
        if t.occupied(r, my, mx) {
            let f = free_run(g, px + mx, py + my);
            if f < m { f } else { m }
        } else {
            m
        }
    }
}

/// How many rows a hard drop moves the piece down: one less than the
/// shortest free run under its occupied cells, and none when a cell already
/// overlaps a landed cell or no cell is occupied.
pub open spec fn drop_distance(g: Seq<Seq<PlayFieldCell>>, t: Tetromino, r: int, px: int, py: int) -> int {
    let m = min_run(g, t, r, px, py, 16);
    if m == 0 || m > HEIGHT { 0 } else { m - 1 }
}

/// Whether position (`cx`, `cy`) is closed to a piece: outside the rows of
/// `g`, outside the playable columns, or landed.
pub open spec fn blocked(g: Seq<Seq<PlayFieldCell>>, cx: int, cy: int) -> bool {
    cy < 0 || cy >= g.len() || cx < PLAY_LEFT || cx > PLAY_RIGHT || g[cy][cx].landed
}

/// Whether some occupied cell of the piece, shifted by (`dx`, `dy`), is blocked.
pub open spec fn collides(g: Seq<Seq<PlayFieldCell>>, t: Tetromino, r: int, px: int, py: int, dx: int, dy: int) -> bool {
    exists|my: int, mx: int|
        0 <= my < 4 && 0 <= mx < 4 && #[trigger] t.occupied(r, my, mx) && blocked(g, px + mx + dx, py + my + dy)
}

/// Whether the piece anchored at (`px`, `py`) keeps every occupied cell in the
/// grid's rows and the playable columns.
pub open spec fn placed(t: Tetromino, r: int, px: int, py: int) -> bool {
    &&& 0 <= px <= WIDTH
    &&& 0 <= py <= HEIGHT
    &&& forall|my: int, mx: int|
        0 <= my < 4 && 0 <= mx < 4 && #[trigger] t.occupied(r, my, mx) ==> py + my < HEIGHT && PLAY_LEFT
            <= px + mx <= PLAY_RIGHT
}

/// A rectangle of the terminal, in character cells, where a control button
/// was drawn.
#[derive(Debug, Clone, Copy, PartialEq, Eq, Structural)]
pub struct Area {
    pub x: u16,
    pub y: u16,
    pub width: u16,
    pub height: u16,
}

/// The whole game state.
#[derive(Debug)]
pub struct App {
    /// Whether the game loop should go on.
    pub running: bool,
    /// The backing grid, indexed `[row][column]`.
    pub playfield: Vec<Vec<PlayFieldCell>>,
    pub current_tetromino: Tetromino,
    /// The held piece; blank while nothing is held.
    pub swap_tetromino: Tetromino,
    pub tetromino_queue: Vec<Tetromino>,
    pub start_x: usize,
    pub start_y: usize,
    pub x: usize,
    pub y: usize,
    pub current_rotation: usize,
    pub tick_count: u32,
    pub tick_count_target: u32,
    pub default_tick_count_target: u32,
    /// Set after the first tick on which the active piece rests on something.
    pub grace_period: bool,
    pub paused: bool,
    /// Where the control buttons were drawn, in button order.
    pub buttons: Vec<Area>,
    pub score: u32,
    pub high_score: u32,
    pub level: u32,
}

impl Default for App {
    /// A new game (see `App::new`).
    fn default() -> (a: App)
        ensures
            a.wf(),
            a.starts_fresh(),
            exists|kind: int| 0 <= kind < KIND_COUNT && a.current_tetromino == #[trigger] shape_of(kind),
    {
        App::new()
    }
}

impl App {
    /// The playfield as rows of cells.
    pub open spec fn grid(&self) -> Seq<Seq<PlayFieldCell>> {
        self.playfield@.map_values(|row: Vec<PlayFieldCell>| row@)
    }

    /// Every field but the active piece is as a new game has it: an empty
    /// grid, nothing held, an empty queue, the anchor at the spawn position
    /// (`START_X`, `START_Y`) in rotation 0, the clock at zero with the first
    /// level's target, no grace tick, not paused, running, no buttons, and
    /// score, high score and level at 0, 0 and 1.
    pub open spec fn starts_fresh(&self) -> bool {
        &&& self.grid() == Seq::new(HEIGHT as nat, |i: int| empty_row())
        &&& self.swap_tetromino.is_blank()
        &&& self.tetromino_queue@.len() == 0
        &&& self.running
        &&& !self.paused
        &&& !self.grace_period
        &&& self.start_x == START_X && self.start_y == START_Y
        &&& self.x == START_X && self.y == START_Y
        &&& self.current_rotation == 0
        &&& self.tick_count == 0
        &&& self.tick_count_target == 0
        &&& self.default_tick_count_target == DEFAULT_TICK_TARGET
        &&& self.buttons@.len() == 0
        &&& self.score == 0
        &&& self.high_score == 0
        &&& self.level == 1
    }

    /// The state is consistent: the grid has its fixed size, the rotation
    /// index is in range, the active piece lies in the rows and playable
    /// columns, any piece fits at the spawn anchor, and every piece in play
    /// (the held one unless the slot is empty) occupies a cell in each
    /// rotation.
    pub open spec fn wf(&self) -> bool {
        &&& grid_shaped(self.grid())
        &&& self.current_rotation < 4
        &&& self.current_tetromino.solid()
        &&& self.swap_tetromino.is_blank() || self.swap_tetromino.solid()
        &&& forall|i: int| 0 <= i < self.tetromino_queue@.len() ==> (#[trigger] self.tetromino_queue@[i]).solid()
        &&& placed(self.current_tetromino, self.current_rotation as int, self.x as int, self.y as int)
        &&& PLAY_LEFT <= self.start_x
        &&& self.start_x + 3 <= PLAY_RIGHT
        &&& self.start_y + 4 <= HEIGHT
    }

    /// Whether the active piece, shifted by (`dx`, `dy`), would be blocked.
    pub open spec fn piece_blocked(&self, dx: int, dy: int) -> bool {
        collides(self.grid(), self.current_tetromino, self.current_rotation as int, self.x as int, self.y as int, dx, dy)
    }

    fn set_cell(&mut self, i: usize, j: usize, c: PlayFieldCell)
        requires
            grid_shaped(old(self).grid()),
            i < HEIGHT,
            j < WIDTH,
        ensures
            final(self).grid() == old(self).grid().update(i as int, old(self).grid()[i as int].update(j as int, c)),
            grid_shaped(final(self).grid()),
            (*final(self) == App { playfield: final(self).playfield, ..*old(self) }),
    {
        assert(self.grid()[i as int] == self.playfield@[i as int]@);
        self.playfield[i].set(j, c);
        assert(self.grid() =~~= old(self).grid().update(i as int, old(self).grid()[i as int].update(j as int, c)));
    }

    /// Resets every falling flag of the grid.
    pub fn clear_falling(&mut self)
        requires
            grid_shaped(old(self).grid()),
        ensures
            final(self).grid() == without_falling(old(self).grid()),
            (*final(self) == App { playfield: final(self).playfield, ..*old(self) }),
    {
        let ghost g0 = self.grid();
        let mut i: usize = 0;
        while i < HEIGHT
            invariant
                i <= HEIGHT,
                grid_shaped(self.grid()),
                grid_shaped(g0),
                (*self == App { playfield: self.playfield, ..*old(self) }),
                g0 == old(self).grid(),
                forall|a: int, b: int| 0 <= a < HEIGHT && 0 <= b < WIDTH ==> #[trigger] self.grid()[a][b] == (if a < i {
                    PlayFieldCell { falling: false, landed: g0[a][b].landed }
                } else {
                    g0[a][b]
                }),
            decreases HEIGHT - i,
        {
            let mut j: usize = 0;
            while j < WIDTH
                invariant
                    i < HEIGHT,
                    j <= WIDTH,
                    grid_shaped(self.grid()),
                    grid_shaped(g0),
                    (*self == App { playfield: self.playfield, ..*old(self) }),
                    g0 == old(self).grid(),
                    forall|a: int, b: int| 0 <= a < HEIGHT && 0 <= b < WIDTH ==> #[trigger] self.grid()[a][b] == (if a < i || (a == i && b < j) {
                        PlayFieldCell { falling: false, landed: g0[a][b].landed }
                    } else {
                        g0[a][b]
                    }),
                decreases WIDTH - j,
            {
                assert(self.grid()[i as int] == self.playfield@[i as int]@);
                let landed = self.playfield[i][j].landed;
                self.set_cell(i, j, PlayFieldCell { falling: false, landed: landed });
                j += 1;
            }
            i += 1;
        }
        assert(self.grid() =~~= without_falling(g0));
    }

    /// Marks the footprint of the piece as falling (or as landed, with
    /// `as_landed`), leaving out the cells that lie outside the grid.
    fn paint_piece(&mut self, t: &Tetromino, r: usize, px: usize, py: usize, as_landed: bool)
        requires
            grid_shaped(old(self).grid()),
            r < 4,
            px <= WIDTH,
            py <= HEIGHT,
        ensures
            as_landed ==> final(self).grid() == with_landed(old(self).grid(), *t, r as int, px as int, py as int),
            !as_landed ==> final(self).grid() == with_falling(old(self).grid(), *t, r as int, px as int, py as int),
            grid_shaped(final(self).grid()),
            (*final(self) == App { playfield: final(self).playfield, ..*old(self) }),
    {
        let ghost g0 = self.grid();
        let mut my: usize = 0;
        while my < 4
            invariant
                my <= 4,
                r < 4,
                px <= WIDTH,
                py <= HEIGHT,
                grid_shaped(self.grid()),
                grid_shaped(g0),
                (*self == App { playfield: self.playfield, ..*old(self) }),
                g0 == old(self).grid(),
                forall|a: int, b: int| 0 <= a < HEIGHT && 0 <= b < WIDTH ==> #[trigger] self.grid()[a][b] == (if covers(*t, r as int, px as int, py as int, a, b) && a - py < my {
                    painted(g0[a][b], as_landed)
                } else {
                    g0[a][b]
                }),
            decreases 4 - my,
        {
            let mut mx: usize = 0;
            while mx < 4
                invariant
                    my < 4,
                    mx <= 4,
                    r < 4,
                    px <= WIDTH,
                    py <= HEIGHT,
                    grid_shaped(self.grid()),
                    grid_shaped(g0),
                    (*self == App { playfield: self.playfield, ..*old(self) }),
                    g0 == old(self).grid(),
                    forall|a: int, b: int| 0 <= a < HEIGHT && 0 <= b < WIDTH ==> #[trigger] self.grid()[a][b] == (if covers(*t, r as int, px as int, py as int, a, b) && (a - py < my || (a - py == my && b - px < mx)) {
                        painted(g0[a][b], as_landed)
                    } else {
                        g0[a][b]
                    }),
                decreases 4 - mx,
            {
                if t.rotations[r][my][mx] && py + my < HEIGHT && px + mx < WIDTH {
                    let i = py + my;
                    let j = px + mx;
                    assert(self.grid()[i as int] == self.playfield@[i as int]@);
                    let old_cell = self.playfield[i][j];
                    let cell = if as_landed {
                        PlayFieldCell { falling: old_cell.falling, landed: true }
                    } else {
                        PlayFieldCell { falling: true, landed: old_cell.landed }
                    };
                    self.set_cell(i, j, cell);
                }
                mx += 1;
            }
            my += 1;
        }
        if as_landed {
            assert(self.grid() =~~= with_landed(g0, *t, r as int, px as int, py as int));
        } else {
            assert(self.grid() =~~= with_falling(g0, *t, r as int, px as int, py as int));
        }
    }

    /// Marks the footprint of `tetromino`, in the current rotation, anchored
    /// at (`start_x`, `start_y`), as falling, and hands the piece back.
    pub fn spawn_tetromino(&mut self, start_x: usize, start_y: usize, tetromino: Tetromino) -> (t: Tetromino)
        requires
            grid_shaped(old(self).grid()),
            old(self).current_rotation < 4,
            start_x <= WIDTH,
            start_y <= HEIGHT,
        ensures
            t == tetromino,
            final(self).grid() == with_falling(
                old(self).grid(),
                tetromino,
                old(self).current_rotation as int,
                start_x as int,
                start_y as int,
            ),
            (*final(self) == App { playfield: final(self).playfield, ..*old(self) }),
    {
        let r = self.current_rotation;
        self.paint_piece(&tetromino, r, start_x, start_y, false);
        tetromino
    }

    /// Whether rotation `r` of `t`, anchored at the active piece's anchor
    /// shifted by (`dx`, `dy`), would be blocked.
    fn piece_collides(&self, t: &Tetromino, r: usize, dx: i32, dy: i32) -> (b: bool)
        requires
            grid_shaped(self.grid()),
            r < 4,
            self.x <= WIDTH,
            self.y <= HEIGHT,
        ensures
            b == collides(self.grid(), *t, r as int, self.x as int, self.y as int, dx as int, dy as int),
    {
        let mut my: usize = 0;
        while my < 4
            invariant
                my <= 4,
                r < 4,
                grid_shaped(self.grid()),
                self.x <= WIDTH,
                self.y <= HEIGHT,
                forall|a: int, b: int| 0 <= a < my && 0 <= b < 4 && #[trigger] t.occupied(r as int, a, b) ==> !blocked(self.grid(), self.x + b + dx, self.y + a + dy),
            decreases 4 - my,
        {
            let mut mx: usize = 0;
            while mx < 4
                invariant
                    my < 4,
                    mx <= 4,
                    r < 4,
                    grid_shaped(self.grid()),
                    self.x <= WIDTH,
                    self.y <= HEIGHT,
                    forall|a: int, b: int| 0 <= a < my && 0 <= b < 4 && #[trigger] t.occupied(r as int, a, b) ==> !blocked(self.grid(), self.x + b + dx, self.y + a + dy),
                    forall|b: int| 0 <= b < mx && #[trigger] t.occupied(r as int, my as int, b) ==> !blocked(self.grid(), self.x + b + dx, self.y + my + dy),
                decreases 4 - mx,
            {
                if t.rotations[r][my][mx] {
                    let cy: i64 = (self.y + my) as i64 + dy as i64;
                    let cx: i64 = (self.x + mx) as i64 + dx as i64;
                    let outside = cy < 0 || cy >= HEIGHT as i64 || cx < PLAY_LEFT as i64 || cx > PLAY_RIGHT as i64;
                    if outside {
                        assert(t.occupied(r as int, my as int, mx as int));
                        return true;
                    }
                    assert(self.grid()[cy as int] == self.playfield@[cy as int]@);
                    if self.playfield[cy as usize][cx as usize].landed {
                        assert(t.occupied(r as int, my as int, mx as int));
                        return true;
                    }
                }
                mx += 1;
            }
            my += 1;
        }
        false
    }

    /// Whether rotation `r` of `t`, anchored where the active piece is,
    /// would be blocked.
    pub fn piece_blocked_by(&self, t: &Tetromino, r: usize) -> (b: bool)
        requires
            self.wf(),
            r < 4,
        ensures
            b == collides(self.grid(), *t, r as int, self.x as int, self.y as int, 0, 0),
    {
        self.piece_collides(t, r, 0, 0)
    }

    /// Whether the active piece, shifted by (`x_offset`, `y_offset`), would
    /// have an occupied cell outside the rows, outside the playable columns,
    /// or on a landed cell.
    pub fn has_landed_cells_at_offset(&self, x_offset: i32, y_offset: i32) -> (b: bool)
        requires
            self.wf(),
        ensures
            b == self.piece_blocked(x_offset as int, y_offset as int),
    {
        let t = self.current_tetromino;
        self.piece_collides(&t, self.current_rotation, x_offset, y_offset)
    }

    /// Moves the anchor by (`move_x`, `move_y`) and redraws the falling cells
    /// there with `tetromino` in the current rotation. The move is not
    /// checked: the active piece must fit at the new anchor.
    pub fn move_tetromino(&mut self, move_x: i32, move_y: i32, tetromino: Tetromino)
        requires
            old(self).wf(),
            placed(
                old(self).current_tetromino,
                old(self).current_rotation as int,
                old(self).x + move_x,
                old(self).y + move_y,
            ),
        ensures
            move_outcome(*old(self), *final(self), move_x as int, move_y as int, tetromino),
            final(self).wf(),
    {
        self.clear_falling();
        let new_x = (self.x as i64 + move_x as i64) as usize;
        let new_y = (self.y as i64 + move_y as i64) as usize;
        let r = self.current_rotation;
        self.paint_piece(&tetromino, r, new_x, new_y, false);
        self.x = new_x;
        self.y = new_y;
    }

    /// Turns the active piece one step clockwise (or counter-clockwise) and
    /// redraws it, unless the turned piece would be blocked where it stands,
    /// in which case nothing changes.
    pub fn rotate_tetromino(&mut self, clockwise: bool)
        requires
            old(self).wf(),
        ensures
            rotate_outcome(*old(self), *final(self), clockwise),
            final(self).wf(),
    {
        let nr = if clockwise { (self.current_rotation + 1) % 4 } else { (self.current_rotation + 3) % 4 };
        let t = self.current_tetromino;
        if self.piece_collides(&t, nr, 0, 0) {
            return;
        }
        proof {
            lemma_unblocked_placed(self.grid(), t, nr as int, self.x as int, self.y as int, 0, 0);
        }
        self.current_rotation = nr;
        self.move_tetromino(0, 0, t);
    }

    /// Removes every row whose playable cells are all landed, puts as many
    /// empty rows on top, and returns how many rows were removed. The other
    /// rows keep their order.
    pub fn check_for_line_clear(&mut self) -> (lines: u32)
        requires
            grid_shaped(old(self).grid()),
        ensures
            lines == full_rows(old(self).grid()),
            final(self).grid() == rows_cleared(old(self).grid()),
            grid_shaped(final(self).grid()),
            (*final(self) == App { playfield: final(self).playfield, ..*old(self) }),
    {
        let ghost g0 = self.grid();
        let mut rows: Vec<Vec<PlayFieldCell>> = Vec::new();
        std::mem::swap(&mut rows, &mut self.playfield);
        let mut kept: Vec<Vec<PlayFieldCell>> = Vec::new();
        let mut lines: u32 = 0;
        let ghost mut seen: Seq<Seq<PlayFieldCell>> = Seq::empty();
        while rows.len() > 0
            invariant
                g0 == old(self).grid(),
                grid_shaped(g0),
                seen + rows@.map_values(|r: Vec<PlayFieldCell>| r@) == g0,
                kept@.map_values(|r: Vec<PlayFieldCell>| r@) == seen.filter(|r: Seq<PlayFieldCell>| !row_full(r)),
                lines == seen.filter(|r: Seq<PlayFieldCell>| row_full(r)).len(),
                lines <= seen.len(),
                seen.len() <= HEIGHT,
                (*self == App { playfield: self.playfield, ..*old(self) }),
            decreases rows.len(),
        {
            let ghost rv = rows@.map_values(|r: Vec<PlayFieldCell>| r@);
            let row = rows.remove(0);
            proof {
                assert(rv[0] == row@);
                assert(rows@.map_values(|r: Vec<PlayFieldCell>| r@) =~= rv.drop_first());
                assert(seen.push(row@) + rv.drop_first() =~= seen + rv);
                assert(g0[seen.len() as int] == row@);
            }
            let full = row_is_full(&row);
            proof {
                seen.lemma_filter_push(row@, |r: Seq<PlayFieldCell>| !row_full(r));
                seen.lemma_filter_push(row@, |r: Seq<PlayFieldCell>| row_full(r));
            }
            if full {
                lines += 1;
            } else {
                let ghost kv = kept@.map_values(|r: Vec<PlayFieldCell>| r@);
                kept.push(row);
                assert(kept@.map_values(|r: Vec<PlayFieldCell>| r@) =~= kv.push(row@));
            }
            proof {
                seen = seen.push(row@);
            }
        }
        proof {
            assert(seen =~= g0);
            lemma_filter_split(g0);
        }
        let mut fresh: Vec<Vec<PlayFieldCell>> = Vec::new();
        let mut k: u32 = 0;
        while k < lines
            invariant
                k <= lines,
                lines <= HEIGHT,
                fresh@.map_values(|r: Vec<PlayFieldCell>| r@) =~= Seq::new(k as nat, |i: int| empty_row()),
            decreases lines - k,
        {
            let ghost fv = fresh@.map_values(|r: Vec<PlayFieldCell>| r@);
            let row = empty_row_vec();
            fresh.push(row);
            assert(fresh@.map_values(|r: Vec<PlayFieldCell>| r@) =~= fv.push(empty_row()));
            k += 1;
        }
        let ghost fv = fresh@.map_values(|r: Vec<PlayFieldCell>| r@);
        let ghost kv = kept@.map_values(|r: Vec<PlayFieldCell>| r@);
        fresh.append(&mut kept);
        self.playfield = fresh;
        proof {
            assert(self.grid() =~= fv + kv);
            assert(self.grid() =~= rows_cleared(g0));
            lemma_cleared_shaped(g0);
        }
        lines
    }

    /// A new game whose first piece is of kind `kind` (see `starts_fresh`).
    pub fn starting_with(kind: usize) -> (a: App)
        requires
            kind < KIND_COUNT,
        ensures
            a.wf(),
            a.starts_fresh(),
            a.current_tetromino == shape_of(kind as int),
    {
        let mut playfield: Vec<Vec<PlayFieldCell>> = Vec::new();
        let mut i: usize = 0;
        while i < HEIGHT
            invariant
                i <= HEIGHT,
                playfield@.map_values(|r: Vec<PlayFieldCell>| r@) =~= Seq::new(i as nat, |k: int| empty_row()),
            decreases HEIGHT - i,
        {
            let ghost pv = playfield@.map_values(|r: Vec<PlayFieldCell>| r@);
            playfield.push(empty_row_vec());
            assert(playfield@.map_values(|r: Vec<PlayFieldCell>| r@) =~= pv.push(empty_row()));
            i += 1;
        }
        let first = tetromino_shape(kind);
        let app = App {
            running: true,
            playfield,
            current_tetromino: first,
            swap_tetromino: blank_tetromino(),
            tetromino_queue: Vec::new(),
            start_x: START_X,
            start_y: START_Y,
            x: START_X,
            y: START_Y,
            current_rotation: 0,
            tick_count: 0,
            tick_count_target: 0,
            default_tick_count_target: DEFAULT_TICK_TARGET,
            grace_period: false,
            paused: false,
            buttons: Vec::new(),
            score: 0,
            high_score: 0,
            level: 1,
        };
        proof {
            lemma_shapes_solid(kind as int);
            lemma_start_placed(first, 0, START_X as int, START_Y as int);
            assert forall|i: int| 0 <= i < app.grid().len() implies (#[trigger] app.grid()[i]).len() == WIDTH by {
                assert(app.grid()[i] == empty_row());
            }
        }
        app
    }

    /// A new game whose first piece is of a random kind (see
    /// `starts_fresh`); the queue fills on the first tick.
    pub fn new() -> (a: App)
        ensures
            a.wf(),
            a.starts_fresh(),
            exists|kind: int| 0 <= kind < KIND_COUNT && a.current_tetromino == #[trigger] shape_of(kind),
    {
        let kind = random_below(KIND_COUNT);
        App::starting_with(kind)
    }

    /// Appends the shapes of the kinds in `order` to the queue.
    pub fn push_bag(&mut self, order: &Vec<usize>)
        requires
            forall|i: int| 0 <= i < order@.len() ==> #[trigger] order@[i] < KIND_COUNT,
        ensures
            final(self).tetromino_queue@ == old(self).tetromino_queue@ + order@.map_values(|k: usize| shape_of(k as int)),
            old(self).wf() ==> final(self).wf(),
            (*final(self) == App { tetromino_queue: final(self).tetromino_queue, ..*old(self) }),
    {
        let mut i: usize = 0;
        while i < order.len()
            invariant
                i <= order@.len(),
                forall|i: int| 0 <= i < order@.len() ==> #[trigger] order@[i] < KIND_COUNT,
                self.tetromino_queue@ =~= old(self).tetromino_queue@ + order@.take(i as int).map_values(|k: usize| shape_of(k as int)),
                (*self == App { tetromino_queue: self.tetromino_queue, ..*old(self) }),
                old(self).wf() ==> self.wf(),
            decreases order@.len() - i,
        {
            let t = tetromino_shape(order[i]);
            proof {
                lemma_shapes_solid(order@[i as int] as int);
            }
            self.tetromino_queue.push(t);
            assert(order@.take(i + 1) =~= order@.take(i as int).push(order@[i as int]));
            i += 1;
        }
        assert(order@.take(order@.len() as int) =~= order@);
    }

    /// Appends a freshly shuffled bag of all piece kinds to the queue.
    pub fn populate_tetromino_queue(&mut self)
        ensures
            exists|bag: Seq<usize>|
                is_bag(bag) && final(self).tetromino_queue@ == old(self).tetromino_queue@ + bag.map_values(
                    |k: usize| shape_of(k as int),
                ),
            final(self).tetromino_queue@.len() == old(self).tetromino_queue@.len() + KIND_COUNT,
            old(self).wf() ==> final(self).wf(),
            (*final(self) == App { tetromino_queue: final(self).tetromino_queue, ..*old(self) }),
    {
        let order = fresh_bag();
        self.push_bag(&order);
    }

    /// Stops the game loop.
    pub fn quit(&mut self)
        ensures
            (*final(self) == App { running: false, ..*old(self) }),
    {
        self.running = false;
    }

    /// Whether the cell one row and one column inside the spawn anchor is
    /// landed, which means that no new piece can come in.
    pub fn check_for_game_over(&self) -> (b: bool)
        requires
            self.wf(),
        ensures
            b == self.grid()[self.start_y + 1][self.start_x + 1].landed,
    {
        assert(self.grid()[self.start_y + 1] == self.playfield@[self.start_y + 1]@);
        self.playfield[self.start_y + 1][self.start_x + 1].landed
    }

    /// Goes up one level when the score is above 500 times the cube of the
    /// level; the tick target of the new level is one lower, down to zero.
    pub fn check_for_next_level(&mut self)
        ensures
            if old(self).score > 500 * old(self).level * old(self).level * old(self).level {
                &&& final(self).level == old(self).level + 1
                &&& final(self).default_tick_count_target == if old(self).default_tick_count_target > 0 {
                    old(self).default_tick_count_target - 1
                } else {
                    0
                }
                &&& (*final(self) == App {
                    level: final(self).level,
                    default_tick_count_target: final(self).default_tick_count_target,
                    ..*old(self)
                })
            } else {
                *final(self) == *old(self)
            },
    {
        let level = self.level as u64;
        let mut above = false;
        if level < 2048 {
            proof {
                assert(level * level <= 2048 * 2048) by (nonlinear_arith)
                    requires level < 2048;
                assert(level * level * level <= 2048 * 2048 * 2048) by (nonlinear_arith)
                    requires level < 2048;
            }
            let cube = level * level * level;
            proof {
                assert(500 * cube == 500 * level * level * level) by (nonlinear_arith)
                    requires cube == level * level * level;
            }
            above = (self.score as u64) > 500 * cube;
        } else {
            proof {
                assert(500 * level * level * level >= 500 * 2048 * 2048 * 2048) by (nonlinear_arith)
                    requires level >= 2048;
            }
        }
        if above {
            self.level = self.level + 1;
            if self.default_tick_count_target > 0 {
                self.default_tick_count_target = self.default_tick_count_target - 1;
            }
        }
    }

    /// Commits the active piece: its footprint becomes landed, the falling
    /// flags are reset, and the piece at the head of the queue comes in at
    /// the spawn anchor in rotation 0.
    pub fn reset_tetromino(&mut self)
        requires
            old(self).wf(),
            old(self).tetromino_queue@.len() > 0,
        ensures
            reset_outcome(*old(self), *final(self)),
            final(self).wf(),
    {
        self.land_tetromino();
        self.clear_falling();
        self.x = self.start_x;
        self.y = self.start_y;
        self.current_rotation = 0;
        let next = self.tetromino_queue[0];
        self.current_tetromino = self.spawn_tetromino(self.x, self.y, next);
        self.tetromino_queue.remove(0);
        proof {
            lemma_start_placed(next, 0, self.start_x as int, self.start_y as int);
            assert(self.tetromino_queue@ =~= old(self).tetromino_queue@.drop_first());
        }
    }

    /// Exchanges the active and the held piece and puts the active one back
    /// at the spawn anchor in rotation 0, with the falling flags reset. When
    /// nothing was held, the piece at the head of the queue comes in at once.
    pub fn swap_tetromino(&mut self)
        requires
            old(self).wf(),
            old(self).swap_tetromino.is_blank() ==> old(self).tetromino_queue@.len() > 0,
        ensures
            swap_outcome(*old(self), *final(self)),
            final(self).wf(),
    {
        std::mem::swap(&mut self.current_tetromino, &mut self.swap_tetromino);
        self.clear_falling();
        self.x = self.start_x;
        self.y = self.start_y;
        self.current_rotation = 0;
        if self.current_tetromino.is_empty() {
            let next = self.tetromino_queue[0];
            self.current_tetromino = self.spawn_tetromino(self.x, self.y, next);
            self.tetromino_queue.remove(0);
            proof {
                assert(self.tetromino_queue@ =~= old(self).tetromino_queue@.drop_first());
            }
        }
        proof {
            lemma_start_placed(self.current_tetromino, 0, self.start_x as int, self.start_y as int);
        }
    }

    /// Drops the active piece as far as it goes without reaching a landed
    /// cell or leaving the grid, then commits it (see `reset_tetromino`).
    /// A piece that already overlaps a landed cell is committed where it is.
    pub fn drop_tetromino(&mut self)
        requires
            old(self).wf(),
            old(self).tetromino_queue@.len() > 0,
        ensures
            drop_outcome(*old(self), *final(self)),
            final(self).wf(),
            ({
                let g = old(self).grid();
                let t = old(self).current_tetromino;
                let r = old(self).current_rotation as int;
                let px = old(self).x as int;
                let py = old(self).y as int;
                let d = drop_distance(g, t, r, px, py);
                &&& old(self).piece_blocked(0, 0) ==> d == 0
                &&& !old(self).piece_blocked(0, 0) ==> !collides(g, t, r, px, py + d, 0, 0) && collides(g, t, r, px, py + d, 0, 1)
            }),
            forall|my: int, mx: int|
                0 <= my < 4 && 0 <= mx < 4 && #[trigger] old(self).current_tetromino.occupied(
                    old(self).current_rotation as int,
                    my,
                    mx,
                ) ==> final(self).grid()[old(self).y + drop_distance(
                    old(self).grid(),
                    old(self).current_tetromino,
                    old(self).current_rotation as int,
                    old(self).x as int,
                    old(self).y as int,
                ) + my][old(self).x + mx].landed,
            forall|i: int, j: int|
                0 <= i < HEIGHT && 0 <= j < WIDTH ==> (#[trigger] final(self).grid()[i][j]).falling == covers(
                    old(self).tetromino_queue@[0],
                    0,
                    old(self).start_x as int,
                    old(self).start_y as int,
                    i,
                    j,
                ),
    {
        let ghost g = self.grid();
        let t = self.current_tetromino;
        let r = self.current_rotation;
        proof {
            if self.piece_blocked(0, 0) {
                lemma_overlap_no_drop(g, t, r as int, self.x as int, self.y as int);
            } else {
                lemma_drop_rests(g, t, r as int, self.x as int, self.y as int);
            }
        }
        let mut min_drops: usize = NO_CELL;
        let mut k: usize = 0;
        while k < 16
            invariant
                k <= 16,
                self.wf(),
                g == self.grid(),
                t == self.current_tetromino,
                r == self.current_rotation,
                min_drops == min_run(g, t, r as int, self.x as int, self.y as int, k as int),
            decreases 16 - k,
        {
            let my = k / 4;
            let mx = k % 4;
            if t.rotations[r][my][mx] {
                proof {
                    assert(t.occupied(r as int, my as int, mx as int));
                }
                let cx = self.x + mx;
                let mut drops: usize = 0;
                let mut y_temp: usize = my;
                while self.y + y_temp < HEIGHT && cx < WIDTH && !self.playfield[self.y + y_temp][cx].landed
                    invariant
                        self.wf(),
                        g == self.grid(),
                        cx == self.x + mx,
                        my < 4,
                        y_temp == my + drops,
                        self.y + y_temp <= HEIGHT,
                        free_run(g, cx as int, (self.y + my) as int) == drops + free_run(g, cx as int, (self.y + y_temp) as int),
                    decreases HEIGHT - (self.y + y_temp),
                {
                    proof {
                        assert(g[self.y + y_temp] == self.playfield@[self.y + y_temp]@);
                    }
                    y_temp += 1;
                    drops += 1;
                }
                proof {
                    if self.y + y_temp < HEIGHT && cx < WIDTH {
                        assert(g[self.y + y_temp] == self.playfield@[self.y + y_temp]@);
                    }
                    assert(free_run(g, cx as int, (self.y + y_temp) as int) == 0);
                }
                if drops < min_drops {
                    min_drops = drops;
                }
            }
            k += 1;
        }
        let d: usize = if min_drops == 0 || min_drops > HEIGHT { 0 } else { min_drops - 1 };
        proof {
            lemma_drop_placed(g, t, r as int, self.x as int, self.y as int);
        }
        self.move_tetromino(0, d as i32, t);
        let ghost moved = self.grid();
        let ghost dy = self.y;
        self.reset_tetromino();
        proof {
            lemma_commit_clears_falling(moved, t, r as int, old(self).x as int, dy as int);
            let c = without_falling(with_landed(moved, t, r as int, old(self).x as int, dy as int));
            assert forall|my: int, mx: int| 0 <= my < 4 && 0 <= mx < 4 && #[trigger] t.occupied(r as int, my, mx) implies self.grid()[dy
                + my][old(self).x + mx].landed by {
                assert(c[dy + my][old(self).x + mx].landed);
            }
            assert forall|i: int, j: int| 0 <= i < HEIGHT && 0 <= j < WIDTH implies (#[trigger] self.grid()[i][j]).falling
                == covers(old(self).tetromino_queue@[0], 0, old(self).start_x as int, old(self).start_y as int, i, j) by {
                assert(!c[i][j].falling);
            }
        }
    }

    /// One step of the game clock. Nothing happens while paused. Otherwise
    /// the queue is refilled with a bag when it runs low and the tick counter
    /// advances; once it passes the target, full rows are cleared and scored,
    /// the level is checked, a piece resting on something either starts its
    /// grace tick or, when the grace tick is already running, is committed,
    /// and a piece that can fall moves down one row.
    #[verifier::rlimit(50)]
    pub fn tick(&mut self)
        requires
            old(self).wf(),
            !old(self).paused ==> old(self).tick_count < u32::MAX,
            !old(self).paused && old(self).tick_count + 1 > old(self).tick_count_target ==> old(self).score
                + score_gain(old(self).grid(), old(self).level) <= u32::MAX,
        ensures
            final(self).wf(),
            old(self).paused ==> *final(self) == *old(self),
            !old(self).paused ==> tick_outcome(*old(self), *final(self)),
    {
        if self.paused {
            return;
        }
        if self.tetromino_queue.len() < QUEUE_LOW_WATER {
            self.populate_tetromino_queue();
        }
        let ghost q1 = self.tetromino_queue@;
        assert(refilled(old(self).tetromino_queue@, q1));
        assert(q1.len() >= QUEUE_LOW_WATER);
        self.tick_count = self.tick_count + 1;
        if self.tick_count > self.tick_count_target {
            let lines = self.check_for_line_clear();
            proof {
                lemma_filter_split(old(self).grid());
                assert(lines <= HEIGHT);
                assert(lines * lines <= HEIGHT * HEIGHT) by (nonlinear_arith)
                    requires lines <= HEIGHT;
                assert(lines * lines * 100 * self.level <= HEIGHT * HEIGHT * 100 * 0xffff_ffff) by (nonlinear_arith)
                    requires lines * lines <= HEIGHT * HEIGHT, self.level <= 0xffff_ffff;
            }
            let gain: u64 = (lines as u64) * (lines as u64) * 100 * (self.level as u64);
            self.score = self.score + gain as u32;
            self.check_for_next_level();
            if self.has_landed_cells_at_offset(0, 1) {
                if self.grace_period {
                    self.reset_tetromino();
                }
                self.grace_period = !self.grace_period;
            }
            self.tick_count = 0;
            if !self.has_landed_cells_at_offset(0, 1) {
                proof {
                    lemma_unblocked_placed(self.grid(), self.current_tetromino, self.current_rotation as int, self.x as int, self.y as int, 0, 1);
                }
                let t = self.current_tetromino;
                self.move_tetromino(0, 1, t);
                self.grace_period = false;
            }
        }
        self.tick_count_target = self.default_tick_count_target;
    }

    /// Makes the footprint of the active piece permanent.
    pub fn land_tetromino(&mut self)
        requires
            old(self).wf(),
        ensures
            final(self).grid() == with_landed(
                old(self).grid(),
                old(self).current_tetromino,
                old(self).current_rotation as int,
                old(self).x as int,
                old(self).y as int,
            ),
            final(self).wf(),
            (*final(self) == App { playfield: final(self).playfield, ..*old(self) }),
    {
        let t = self.current_tetromino;
        let r = self.current_rotation;
        let px = self.x;
        let py = self.y;
        self.paint_piece(&t, r, px, py, true);
    }
}

/// Any piece, in any rotation, lies in the rows and playable columns at an
/// anchor whose 4x4 box does.
pub proof fn lemma_start_placed(t: Tetromino, r: int, sx: int, sy: int)
    requires
        PLAY_LEFT <= sx,
        sx + 3 <= PLAY_RIGHT,
        0 <= sy,
        sy + 4 <= HEIGHT,
    ensures
        placed(t, r, sx, sy),
{
}

/// How committing the active piece takes `a` to `b` (see `App::reset_tetromino`).
pub open spec fn reset_outcome(a: App, b: App) -> bool {
    &&& b.grid() == with_falling(
        without_falling(with_landed(
            a.grid(),
            a.current_tetromino,
            a.current_rotation as int,
            a.x as int,
            a.y as int,
        )),
        a.tetromino_queue@[0],
        0,
        a.start_x as int,
        a.start_y as int
    )
    &&& b.current_tetromino == a.tetromino_queue@[0]
    &&& b.tetromino_queue@ == a.tetromino_queue@.drop_first()
    &&& b.x == a.start_x
    &&& b.y == a.start_y
    &&& b.current_rotation == 0
    &&& (b == App {
        playfield: b.playfield,
        current_tetromino: b.current_tetromino,
        tetromino_queue: b.tetromino_queue,
        x: b.x,
        y: b.y,
        current_rotation: b.current_rotation,
        ..a
    })
}

/// How exchanging the active and the held piece takes `a` to `b` (see
/// `App::swap_tetromino`).
pub open spec fn swap_outcome(a: App, b: App) -> bool {
    &&& b.swap_tetromino == a.current_tetromino
    &&& if a.swap_tetromino.is_blank() {
        &&& b.current_tetromino == a.tetromino_queue@[0]
        &&& b.tetromino_queue@ == a.tetromino_queue@.drop_first()
        &&& b.grid() == with_falling(
            without_falling(a.grid()),
            a.tetromino_queue@[0],
            0,
            a.start_x as int,
            a.start_y as int,
        )
    } else {
        &&& b.current_tetromino == a.swap_tetromino
        &&& b.tetromino_queue == a.tetromino_queue
        &&& b.grid() == without_falling(a.grid())
    }
    &&& b.x == a.start_x
    &&& b.y == a.start_y
    &&& b.current_rotation == 0
    &&& (b == App {
        playfield: b.playfield,
        current_tetromino: b.current_tetromino,
        swap_tetromino: b.swap_tetromino,
        tetromino_queue: b.tetromino_queue,
        x: b.x,
        y: b.y,
        current_rotation: b.current_rotation,
        ..a
    })
}

/// How a hard drop takes `a` to `b` (see `App::drop_tetromino`).
pub open spec fn drop_outcome(a: App, b: App) -> bool {
    &&& ({
        let t = a.current_tetromino;
        let r = a.current_rotation as int;
        let px = a.x as int;
        let py = a.y as int;
        let d = drop_distance(a.grid(), t, r, px, py);
        let moved = with_falling(without_falling(a.grid()), t, r, px, py + d);
        b.grid() == with_falling(
            without_falling(with_landed(moved, t, r, px, py + d)),
            a.tetromino_queue@[0],
            0,
            a.start_x as int,
            a.start_y as int,
        )
    })
    &&& b.current_tetromino == a.tetromino_queue@[0]
    &&& b.tetromino_queue@ == a.tetromino_queue@.drop_first()
    &&& b.x == a.start_x
    &&& b.y == a.start_y
    &&& b.current_rotation == 0
    &&& (b == App {
        playfield: b.playfield,
        current_tetromino: b.current_tetromino,
        tetromino_queue: b.tetromino_queue,
        x: b.x,
        y: b.y,
        current_rotation: b.current_rotation,
        ..a
    })
}

/// How moving the anchor by (`move_x`, `move_y`) and redrawing `tetromino`
/// takes `a` to `b` (see `App::move_tetromino`).
pub open spec fn move_outcome(a: App, b: App, move_x: int, move_y: int, tetromino: Tetromino) -> bool {
    &&& b.x == a.x + move_x
    &&& b.y == a.y + move_y
    &&& b.grid() == with_falling(
        without_falling(a.grid()),
        tetromino,
        a.current_rotation as int,
        a.x + move_x,
        a.y + move_y
    )
    &&& (b == App { playfield: b.playfield, x: b.x, y: b.y, ..a })
}

/// How a rotation step takes `a` to `b` (see `App::rotate_tetromino`).
pub open spec fn rotate_outcome(a: App, b: App, clockwise: bool) -> bool {
    &&& ({
        let nr = if clockwise { (a.current_rotation + 1) % 4 } else { (a.current_rotation + 3) % 4 };
        if collides(a.grid(), a.current_tetromino, nr as int, a.x as int, a.y as int, 0, 0) {
            b == a
        } else {
            &&& b.current_rotation == nr
            &&& b.grid() == with_falling(
                without_falling(a.grid()),
                a.current_tetromino,
                nr as int,
                a.x as int,
                a.y as int,
            )
            &&& (b == App { playfield: b.playfield, current_rotation: b.current_rotation, ..a })
        }
    })
}

/// What clearing the full rows of `g` adds to the score at `level`.
pub open spec fn score_gain(g: Seq<Seq<PlayFieldCell>>, level: u32) -> int {
    full_rows(g) * full_rows(g) * 100 * level
}

/// Whether `q1` is `q0` after the low-water refill: unchanged when `q0`
/// holds at least `QUEUE_LOW_WATER` pieces, else `q0` followed by a bag.
pub open spec fn refilled(q0: Seq<Tetromino>, q1: Seq<Tetromino>) -> bool {
    if q0.len() < QUEUE_LOW_WATER {
        exists|bag: Seq<usize>| is_bag(bag) && q1 == q0 + bag.map_values(|k: usize| shape_of(k as int))
    } else {
        q1 == q0
    }
}

/// The level and the default tick target after the level check at `score`.
pub open spec fn leveled(score: int, level: u32, target: u32) -> (u32, u32) {
    if score > 500 * level * level * level {
        ((level + 1) as u32, if target > 0 { (target - 1) as u32 } else { 0 })
    } else {
        (level, target)
    }
}

/// How one tick that is not paused takes `a` to `b`.
pub open spec fn tick_outcome(a: App, b: App) -> bool {
    let fired = a.tick_count + 1 > a.tick_count_target;
    let score = a.score + score_gain(a.grid(), a.level);
    let (level, target) = leveled(score, a.level, a.default_tick_count_target);
    let g1 = rows_cleared(a.grid());
    let t = a.current_tetromino;
    let r = a.current_rotation as int;
    let resting = collides(g1, t, r, a.x as int, a.y as int, 0, 1);
    exists|q1: Seq<Tetromino>| #[trigger] refilled(a.tetromino_queue@, q1) && {
        &&& b.running == a.running
        &&& b.paused == a.paused
        &&& b.swap_tetromino == a.swap_tetromino
        &&& b.start_x == a.start_x && b.start_y == a.start_y
        &&& b.buttons == a.buttons
        &&& b.high_score == a.high_score
        &&& if !fired {
            &&& b.tick_count == a.tick_count + 1
            &&& b.tick_count_target == a.default_tick_count_target
            &&& b.default_tick_count_target == a.default_tick_count_target
            &&& b.score == a.score && b.level == a.level
            &&& b.grace_period == a.grace_period
            &&& b.grid() == a.grid()
            &&& b.current_tetromino == t && b.current_rotation == a.current_rotation
            &&& b.x == a.x && b.y == a.y
            &&& b.tetromino_queue@ == q1
        } else {
            &&& b.tick_count == 0
            &&& b.score == score
            &&& b.level == level
            &&& b.default_tick_count_target == target
            &&& b.tick_count_target == target
            &&& if !resting {
                &&& b.grace_period == false
                &&& b.current_tetromino == t && b.current_rotation == a.current_rotation
                &&& b.x == a.x && b.y == a.y + 1
                &&& b.grid() == with_falling(without_falling(g1), t, r, a.x as int, a.y + 1)
                &&& b.tetromino_queue@ == q1
            } else if !a.grace_period {
                &&& b.grace_period == true
                &&& b.current_tetromino == t && b.current_rotation == a.current_rotation
                &&& b.x == a.x && b.y == a.y
                &&& b.grid() == g1
                &&& b.tetromino_queue@ == q1
            } else {
                let n = q1[0];
                let g2 = with_falling(without_falling(with_landed(g1, t, r, a.x as int, a.y as int)), n, 0, a.start_x as int, a.start_y as int);
                let falls = !collides(g2, n, 0, a.start_x as int, a.start_y as int, 0, 1);
                &&& b.grace_period == false
                &&& b.current_tetromino == n && b.current_rotation == 0
                &&& b.tetromino_queue@ == q1.drop_first()
                &&& b.x == a.start_x
                &&& b.y == if falls { a.start_y + 1 } else { a.start_y as int }
                &&& b.grid() == if falls {
                    with_falling(without_falling(g2), n, 0, a.start_x as int, a.start_y + 1)
                } else {
                    g2
                }
            }
        }
    }
}

/// A tick that fires while exactly one row is full clears that row alone
/// and adds 100 times the level to the score.
pub proof fn lemma_one_row_tick(a: App, b: App)
    requires
        tick_outcome(a, b),
        a.tick_count + 1 > a.tick_count_target,
        full_rows(a.grid()) == 1,
    ensures
        b.score == a.score + 100 * a.level,
        rows_cleared(a.grid()) == seq![empty_row()] + a.grid().filter(|r: Seq<PlayFieldCell>| !row_full(r)),
{
    assert(Seq::new(full_rows(a.grid()), |i: int| empty_row()) =~= seq![empty_row()]);
}

/// A free run from a row inside the grid ends at the bottom row at the latest.
pub proof fn lemma_free_run_bound(g: Seq<Seq<PlayFieldCell>>, cx: int, cy: int)
    requires
        0 <= cy,
    ensures
        cy + free_run(g, cx, cy) <= g.len() || free_run(g, cx, cy) == 0,
    decreases g.len() - cy,
{
    if 0 <= cy < g.len() && 0 <= cx < g[cy].len() && !g[cy][cx].landed {
        lemma_free_run_bound(g, cx, cy + 1);
    }
}

/// The shortest run is no longer than the run under any occupied cell
/// among the first `k`.
pub proof fn lemma_min_run_le(g: Seq<Seq<PlayFieldCell>>, t: Tetromino, r: int, px: int, py: int, k: int, c: int)
    requires
        0 <= c < k,
        t.occupied(r, c / 4, c % 4),
    ensures
        min_run(g, t, r, px, py, k) <= free_run(g, px + c % 4, py + c / 4),
    decreases k,
{
    if c < k - 1 {
        lemma_min_run_le(g, t, r, px, py, k - 1, c);
    }
}

/// The shortest run is `NO_CELL` or at most the grid's height.
pub proof fn lemma_min_run_range(g: Seq<Seq<PlayFieldCell>>, t: Tetromino, r: int, px: int, py: int, k: int)
    requires
        g.len() == HEIGHT,
        0 <= py,
    ensures
        min_run(g, t, r, px, py, k) <= NO_CELL,
        min_run(g, t, r, px, py, k) < NO_CELL ==> exists|c: int|
            0 <= c < k && t.occupied(r, c / 4, c % 4) && #[trigger] free_run(g, px + c % 4, py + c / 4) == min_run(g, t, r, px, py, k),
    decreases k,
{
    if k > 0 {
        lemma_min_run_range(g, t, r, px, py, k - 1);
        let c = k - 1;
        if t.occupied(r, c / 4, c % 4) {
            lemma_free_run_bound(g, px + c % 4, py + c / 4);
        }
    }
}

/// The anchor a hard drop reaches keeps the piece in the rows and playable
/// columns.
pub proof fn lemma_drop_placed(g: Seq<Seq<PlayFieldCell>>, t: Tetromino, r: int, px: int, py: int)
    requires
        grid_shaped(g),
        placed(t, r, px, py),
    ensures
        placed(t, r, px, py + drop_distance(g, t, r, px, py)),
        0 <= drop_distance(g, t, r, px, py) < HEIGHT,
{
    let d = drop_distance(g, t, r, px, py);
    let m = min_run(g, t, r, px, py, 16);
    lemma_min_run_range(g, t, r, px, py, 16);
    if d > 0 {
        let c = choose|c: int| 0 <= c < 16 && t.occupied(r, c / 4, c % 4) && #[trigger] free_run(g, px + c % 4, py + c / 4) == m;
        lemma_free_run_bound(g, px + c % 4, py + c / 4);
        assert forall|my: int, mx: int| 0 <= my < 4 && 0 <= mx < 4 && #[trigger] t.occupied(r, my, mx) implies py + d + my
            < HEIGHT && PLAY_LEFT <= px + mx <= PLAY_RIGHT by {
            let c2 = my * 4 + mx;
            assert(c2 / 4 == my && c2 % 4 == mx);
            lemma_min_run_le(g, t, r, px, py, 16, c2);
            lemma_free_run_bound(g, px + mx, py + my);
        }
    }
}

/// A piece whose shifted footprint is not blocked lies in the rows and the
/// playable columns at the shifted anchor.
pub proof fn lemma_unblocked_placed(g: Seq<Seq<PlayFieldCell>>, t: Tetromino, r: int, px: int, py: int, dx: int, dy: int)
    requires
        grid_shaped(g),
        !collides(g, t, r, px, py, dx, dy),
        t.rotation_nonempty(r),
        0 <= py + dy,
    ensures
        placed(t, r, px + dx, py + dy),
{
    let (my, mx) = choose|my: int, mx: int| 0 <= my < 4 && 0 <= mx < 4 && #[trigger] t.occupied(r, my, mx);
    assert(!blocked(g, px + mx + dx, py + my + dy));
    assert forall|my: int, mx: int| 0 <= my < 4 && 0 <= mx < 4 && #[trigger] t.occupied(r, my, mx) implies py + dy + my < HEIGHT
        && PLAY_LEFT <= px + dx + mx <= PLAY_RIGHT by {
        assert(!blocked(g, px + mx + dx, py + my + dy));
    }
}

/// A fresh row of empty cells.
fn empty_row_vec() -> (row: Vec<PlayFieldCell>)
    ensures
        row@ == empty_row(),
{
    let mut row: Vec<PlayFieldCell> = Vec::new();
    let mut j: usize = 0;
    while j < WIDTH
        invariant
            j <= WIDTH,
            row@ =~= Seq::new(j as nat, |k: int| empty_cell()),
        decreases WIDTH - j,
    {
        row.push(PlayFieldCell { falling: false, landed: false });
        j += 1;
    }
    row
}

/// Whether every playable cell of `row` is landed.
fn row_is_full(row: &Vec<PlayFieldCell>) -> (b: bool)
    requires
        row@.len() == WIDTH,
    ensures
        b == row_full(row@),
{
    let mut j: usize = PLAY_LEFT;
    while j <= PLAY_RIGHT
        invariant
            PLAY_LEFT <= j <= PLAY_RIGHT + 1,
            row@.len() == WIDTH,
            forall|k: int| PLAY_LEFT <= k < j ==> (#[trigger] row@[k]).landed,
        decreases PLAY_RIGHT + 1 - j,
    {
        if !row[j].landed {
            return false;
        }
        j += 1;
    }
    true
}

/// Each row goes either to the full rows or to the others.
pub proof fn lemma_filter_split(g: Seq<Seq<PlayFieldCell>>)
    ensures
        g.filter(|r: Seq<PlayFieldCell>| row_full(r)).len() + g.filter(|r: Seq<PlayFieldCell>| !row_full(r)).len() == g.len(),
    decreases g.len(),
{
    if g.len() > 0 {
        lemma_filter_split(g.drop_last());
        assert(g.drop_last().push(g.last()) =~= g);
        g.drop_last().lemma_filter_push(g.last(), |r: Seq<PlayFieldCell>| row_full(r));
        g.drop_last().lemma_filter_push(g.last(), |r: Seq<PlayFieldCell>| !row_full(r));
    } else {
        reveal(Seq::filter);
    }
}

/// Clearing rows keeps the grid's size.
pub proof fn lemma_cleared_shaped(g: Seq<Seq<PlayFieldCell>>)
    requires
        grid_shaped(g),
    ensures
        grid_shaped(rows_cleared(g)),
{
    lemma_filter_split(g);
    let kept = g.filter(|r: Seq<PlayFieldCell>| !row_full(r));
    assert forall|i: int| 0 <= i < kept.len() implies (#[trigger] kept[i]).len() == WIDTH by {
        assert(kept.contains(kept[i]));
        g.lemma_filter_contains_rev(|r: Seq<PlayFieldCell>| !row_full(r), kept[i]);
        let j = choose|j: int| 0 <= j < g.len() && g[j] == kept[i];
        assert(g[j].len() == WIDTH);
    }
    assert forall|i: int| 0 <= i < rows_cleared(g).len() implies (#[trigger] rows_cleared(g)[i]).len() == WIDTH by {
        if i >= full_rows(g) {
            assert(rows_cleared(g)[i] == kept[i - full_rows(g)]);
        }
    }
}

/// After clearing, no row of the grid is full, and the grid keeps its size.
pub proof fn lemma_cleared_rows_not_full(g: Seq<Seq<PlayFieldCell>>)
    requires
        grid_shaped(g),
    ensures
        grid_shaped(rows_cleared(g)),
        forall|i: int| 0 <= i < rows_cleared(g).len() ==> !row_full(#[trigger] rows_cleared(g)[i]),
{
    lemma_cleared_shaped(g);
    let kept = g.filter(|r: Seq<PlayFieldCell>| !row_full(r));
    assert forall|i: int| 0 <= i < rows_cleared(g).len() implies !row_full(#[trigger] rows_cleared(g)[i]) by {
        if i < full_rows(g) {
            assert(!rows_cleared(g)[i][PLAY_LEFT as int].landed);
        } else {
            assert(rows_cleared(g)[i] == kept[i - full_rows(g)]);
            g.lemma_filter_pred(|r: Seq<PlayFieldCell>| !row_full(r), i - full_rows(g));
        }
    }
}

/// At the playable edges: a piece that stands unblocked with a cell in the
/// last playable column on the right (or on the left) is blocked one step
/// further that way; and a piece whose cells all lie in the rows and the
/// playable columns, none of them on a landed cell, is not blocked, even
/// with cells in the edge columns.
pub proof fn lemma_wall_edges(g: Seq<Seq<PlayFieldCell>>, t: Tetromino, r: int, px: int, py: int, dx: int, dy: int)
    requires
        grid_shaped(g),
    ensures
        !collides(g, t, r, px, py, dx, dy) && (exists|my: int, mx: int|
            0 <= my < 4 && 0 <= mx < 4 && #[trigger] t.occupied(r, my, mx) && px + mx + dx == PLAY_RIGHT)
            ==> collides(g, t, r, px, py, dx + 1, dy),
        !collides(g, t, r, px, py, dx, dy) && (exists|my: int, mx: int|
            0 <= my < 4 && 0 <= mx < 4 && #[trigger] t.occupied(r, my, mx) && px + mx + dx == PLAY_LEFT)
            ==> collides(g, t, r, px, py, dx - 1, dy),
        (forall|my: int, mx: int|
            0 <= my < 4 && 0 <= mx < 4 && #[trigger] t.occupied(r, my, mx) ==> 0 <= py + my + dy < HEIGHT && PLAY_LEFT
                <= px + mx + dx <= PLAY_RIGHT && !g[py + my + dy][px + mx + dx].landed)
            ==> !collides(g, t, r, px, py, dx, dy),
{
    if exists|my: int, mx: int| 0 <= my < 4 && 0 <= mx < 4 && #[trigger] t.occupied(r, my, mx) && px + mx + dx == PLAY_RIGHT {
        let (my, mx) = choose|my: int, mx: int| 0 <= my < 4 && 0 <= mx < 4 && #[trigger] t.occupied(r, my, mx) && px + mx + dx == PLAY_RIGHT;
        assert(blocked(g, px + mx + dx + 1, py + my + dy));
    }
    if exists|my: int, mx: int| 0 <= my < 4 && 0 <= mx < 4 && #[trigger] t.occupied(r, my, mx) && px + mx + dx == PLAY_LEFT {
        let (my, mx) = choose|my: int, mx: int| 0 <= my < 4 && 0 <= mx < 4 && #[trigger] t.occupied(r, my, mx) && px + mx + dx == PLAY_LEFT;
        assert(blocked(g, px + mx + dx - 1, py + my + dy));
    }
}

/// Committing a piece (its footprint becomes landed, then every falling flag
/// is reset) leaves each of its cells that lies in the grid landed and no
/// falling cell anywhere.
pub proof fn lemma_commit_clears_falling(g: Seq<Seq<PlayFieldCell>>, t: Tetromino, r: int, px: int, py: int)
    requires
        grid_shaped(g),
    ensures
        ({
            let c = without_falling(with_landed(g, t, r, px, py));
            &&& grid_shaped(c)
            &&& forall|i: int, j: int| 0 <= i < HEIGHT && 0 <= j < WIDTH ==> !(#[trigger] c[i][j]).falling
            &&& forall|my: int, mx: int|
                0 <= my < 4 && 0 <= mx < 4 && #[trigger] t.occupied(r, my, mx) && 0 <= py + my < HEIGHT && 0 <= px
                    + mx < WIDTH ==> c[py + my][px + mx].landed
        }),
{
    let c = without_falling(with_landed(g, t, r, px, py));
    assert forall|i: int| 0 <= i < c.len() implies (#[trigger] c[i]).len() == WIDTH by {
        assert(g[i].len() == WIDTH);
    }
    assert forall|my: int, mx: int|
        0 <= my < 4 && 0 <= mx < 4 && #[trigger] t.occupied(r, my, mx) && 0 <= py + my < HEIGHT && 0 <= px + mx
            < WIDTH implies c[py + my][px + mx].landed by {
        assert(g[py + my].len() == WIDTH);
        assert(covers(t, r, px, py, py + my, px + mx));
    }
}

/// A hard drop of a piece that overlaps no landed cell ends on support: at
/// the anchor it reaches no cell is blocked, one row lower some cell is, and
/// a second drop from there moves the piece no further.
pub proof fn lemma_drop_rests(g: Seq<Seq<PlayFieldCell>>, t: Tetromino, r: int, px: int, py: int)
    requires
        grid_shaped(g),
        placed(t, r, px, py),
        t.rotation_nonempty(r),
        !collides(g, t, r, px, py, 0, 0),
    ensures
        !collides(g, t, r, px, py + drop_distance(g, t, r, px, py), 0, 0),
        collides(g, t, r, px, py + drop_distance(g, t, r, px, py), 0, 1),
        drop_distance(g, t, r, px, py + drop_distance(g, t, r, px, py)) == 0,
{
    let d = drop_distance(g, t, r, px, py);
    let m = min_run(g, t, r, px, py, 16);
    lemma_min_run_range(g, t, r, px, py, 16);
    let (my0, mx0) = choose|my: int, mx: int| 0 <= my < 4 && 0 <= mx < 4 && #[trigger] t.occupied(r, my, mx);
    let c0 = my0 * 4 + mx0;
    assert(c0 / 4 == my0 && c0 % 4 == mx0);
    lemma_min_run_le(g, t, r, px, py, 16, c0);
    lemma_free_run_bound(g, px + mx0, py + my0);
    assert forall|my: int, mx: int| 0 <= my < 4 && 0 <= mx < 4 && #[trigger] t.occupied(r, my, mx) implies !blocked(
        g,
        px + mx,
        py + my + d,
    ) by {
        let c = my * 4 + mx;
        assert(c / 4 == my && c % 4 == mx);
        lemma_min_run_le(g, t, r, px, py, 16, c);
        assert(!blocked(g, px + mx, py + my));
        lemma_free_run_cells(g, px + mx, py + my, d);
    }
    let c = choose|c: int| 0 <= c < 16 && t.occupied(r, c / 4, c % 4) && #[trigger] free_run(g, px + c % 4, py + c / 4) == m;
    let (my, mx) = (c / 4, c % 4);
    assert(!blocked(g, px + mx, py + my));
    lemma_free_run_end(g, px + mx, py + my);
    assert(blocked(g, px + mx, py + my + d + 1));
    lemma_free_run_shift(g, px + mx, py + my, d);
    lemma_min_run_le(g, t, r, px, py + d, 16, c);
    assert(t.occupied(r, c / 4, c % 4));
}

/// A placed piece that is blocked where it stands overlaps a landed cell,
/// so a hard drop does not move it.
pub proof fn lemma_overlap_no_drop(g: Seq<Seq<PlayFieldCell>>, t: Tetromino, r: int, px: int, py: int)
    requires
        grid_shaped(g),
        placed(t, r, px, py),
        collides(g, t, r, px, py, 0, 0),
    ensures
        drop_distance(g, t, r, px, py) == 0,
{
    let (my, mx) = choose|my: int, mx: int|
        0 <= my < 4 && 0 <= mx < 4 && #[trigger] t.occupied(r, my, mx) && blocked(g, px + mx + 0, py + my + 0);
    let c = my * 4 + mx;
    assert(c / 4 == my && c % 4 == mx);
    lemma_min_run_le(g, t, r, px, py, 16, c);
    assert(free_run(g, px + mx, py + my) == 0);
}

/// A free run seen from `k` rows further down is `k` shorter.
pub proof fn lemma_free_run_shift(g: Seq<Seq<PlayFieldCell>>, cx: int, cy: int, k: int)
    requires
        0 <= k <= free_run(g, cx, cy),
    ensures
        free_run(g, cx, cy + k) == free_run(g, cx, cy) - k,
    decreases k,
{
    if k > 0 {
        lemma_free_run_shift(g, cx, cy + 1, k - 1);
    }
}

/// Every cell of a free run is inside the grid and not landed.
pub proof fn lemma_free_run_cells(g: Seq<Seq<PlayFieldCell>>, cx: int, cy: int, k: int)
    requires
        0 <= k < free_run(g, cx, cy),
    ensures
        0 <= cy + k < g.len(),
        0 <= cx < g[cy + k].len(),
        !g[cy + k][cx].landed,
    decreases k,
{
    if k > 0 {
        lemma_free_run_cells(g, cx, cy + 1, k - 1);
    }
}

/// The cell just past a free run is outside the grid or landed.
pub proof fn lemma_free_run_end(g: Seq<Seq<PlayFieldCell>>, cx: int, cy: int)
    requires
        0 <= cy,
    ensures
        ({
            let e = cy + free_run(g, cx, cy);
            !(0 <= e < g.len() && 0 <= cx < g[e].len() && !g[e][cx].landed)
        }),
    decreases g.len() - cy,
{
    if 0 <= cy < g.len() && 0 <= cx < g[cy].len() && !g[cy][cx].landed {
        lemma_free_run_end(g, cx, cy + 1);
    }
}

} // verus!

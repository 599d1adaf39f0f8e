use vstd::prelude::*;
use vstd::string::*;

use crate::app::{App, PlayFieldCell, grid_shaped, HEIGHT, PLAY_LEFT, WIDTH};
use crate::tetromino::Tetromino;

verus! {

/// Rows at the top of the grid that are never shown.
pub const HIDDEN_ROWS: usize = 4;

/// Two characters for one playfield cell: full for landed, shaded for
/// falling, blank otherwise.
pub open spec fn glyph(c: PlayFieldCell) -> Seq<char> {
    if c.landed {
        "██"@
    } else if c.falling {
        "▒▒"@
    } else {
        "  "@
    }
}

/// The glyphs of cells `PLAY_LEFT..n` of `row`.
pub open spec fn row_text(row: Seq<PlayFieldCell>, n: int) -> Seq<char>
    decreases n,
{
    if n <= PLAY_LEFT {
        Seq::empty()
    } else {
        row_text(row, n - 1) + glyph(row[n - 1])
    }
}

/// Rows `HIDDEN_ROWS..n` of `g`, one line each.
pub open spec fn field_text(g: Seq<Seq<PlayFieldCell>>, n: int) -> Seq<char>
    decreases n,
{
    if n <= HIDDEN_ROWS {
        Seq::empty()
    } else {
        field_text(g, n - 1) + row_text(g[n - 1], g[n - 1].len() as int) + seq!['\n']
    }
}

/// Whether row `y` of rotation 1 of `t` is empty.
pub open spec fn preview_row_blank(t: Tetromino, y: int) -> bool {
    forall|x: int| 0 <= x < 4 ==> !#[trigger] t.occupied(1, y, x)
}

/// How many rows of rotation 1 of `t` come before its first empty row.
pub open spec fn preview_len(t: Tetromino) -> int {
    if preview_row_blank(t, 0) {
        0
    } else if preview_row_blank(t, 1) {
        1
    } else if preview_row_blank(t, 2) {
        2
    } else if preview_row_blank(t, 3) {
        3
    } else {
        4
    }
}

/// Two characters for one mask cell.
pub open spec fn mask_glyph(b: bool) -> Seq<char> {
    if b {
        "██"@
    } else {
        "  "@
    }
}

/// Columns 1 and 2 of rows `0..n` of rotation 1 of `t`, one line each.
pub open spec fn preview_text(t: Tetromino, n: int) -> Seq<char>
    decreases n,
{
    if n <= 0 {
        Seq::empty()
    } else {
        preview_text(t, n - 1) + mask_glyph(t.occupied(1, n - 1, 1)) + mask_glyph(t.occupied(1, n - 1, 2)) + seq!['\n']
    }
}

/// The previews of the first `n` pieces of `q`, each followed by an empty line.
pub open spec fn queue_text(q: Seq<Tetromino>, n: int) -> Seq<char>
    decreases n,
{
    if n <= 0 {
        Seq::empty()
    } else {
        queue_text(q, n - 1) + preview_text(q[n - 1], preview_len(q[n - 1])) + seq!['\n']
    }
}

impl App {
    /// The visible rows of the playfield, from its leftmost playable column
    /// on, one line per row.
    pub fn playfield_string(&self) -> (s: String)
        requires
            grid_shaped(self.grid()),
        ensures
            s@ == field_text(self.grid(), HEIGHT as int),
    {
        let mut result = String::new();
        let mut i: usize = HIDDEN_ROWS;
        while i < self.playfield.len()
            invariant
                grid_shaped(self.grid()),
                HIDDEN_ROWS <= i <= HEIGHT,
                result@ == field_text(self.grid(), i as int),
            decreases HEIGHT - i,
        {
            assert(self.grid()[i as int] == self.playfield@[i as int]@);
            let row = &self.playfield[i];
            let ghost before = result@;
            let mut j: usize = PLAY_LEFT;
            while j < row.len()
                invariant
                    row@.len() == WIDTH,
                    PLAY_LEFT <= j <= WIDTH,
                    result@ == before + row_text(row@, j as int),
                decreases WIDTH - j,
            {
                let cell = row[j];
                proof {
                    reveal_strlit("██");
                    reveal_strlit("▒▒");
                    reveal_strlit("  ");
                }
                if cell.landed {
                    result.append("██");
                } else if cell.falling {
                    result.append("▒▒");
                } else {
                    result.append("  ");
                }
                assert(result@ =~= before + row_text(row@, j + 1));
                j += 1;
            }
            proof {
                reveal_strlit("\n");
            }
            result.append("\n");
            assert(result@ =~= field_text(self.grid(), i + 1));
            i += 1;
        }
        result
    }

    /// A small preview of `tetromino`: columns 1 and 2 of the rows of its
    /// rotation 1 that come before the first empty row, one line each.
    pub fn tetromino_string(&self, tetromino: Tetromino) -> (s: String)
        ensures
            s@ == preview_text(tetromino, preview_len(tetromino)),
    {
        let mut result = String::new();
        let mut y: usize = 0;
        while y < 4
            invariant
                y <= 4,
                y <= preview_len(tetromino),
                result@ == preview_text(tetromino, y as int),
            decreases 4 - y,
        {
            if row_is_blank(&tetromino, y) {
                return result;
            }
            proof {
                reveal_strlit("██");
                reveal_strlit("  ");
                reveal_strlit("\n");
            }
            let a = tetromino.rotations[1][y][1];
            let b = tetromino.rotations[1][y][2];
            result.append(if a { "██" } else { "  " });
            result.append(if b { "██" } else { "  " });
            result.append("\n");
            assert(result@ =~= preview_text(tetromino, y + 1));
            y += 1;
        }
        result
    }

    /// The previews of the queued pieces, in queue order, each followed by
    /// an empty line.
    pub fn tetromino_queue_string(&self) -> (s: String)
        ensures
            s@ == queue_text(self.tetromino_queue@, self.tetromino_queue@.len() as int),
    {
        let mut result = String::new();
        let mut i: usize = 0;
        while i < self.tetromino_queue.len()
            invariant
                i <= self.tetromino_queue@.len(),
                result@ == queue_text(self.tetromino_queue@, i as int),
            decreases self.tetromino_queue@.len() - i,
        {
            proof {
                reveal_strlit("\n");
            }
            let piece = self.tetromino_string(self.tetromino_queue[i]);
            result.append(piece.as_str());
            result.append("\n");
            assert(result@ =~= queue_text(self.tetromino_queue@, i + 1));
            i += 1;
        }
        result
    }
}

/// Whether row `y` of rotation 1 of `t` is empty.
fn row_is_blank(t: &Tetromino, y: usize) -> (b: bool)
    requires
        y < 4,
    ensures
        b == preview_row_blank(*t, y as int),
{
    let mut x: usize = 0;
    while x < 4
        invariant
            x <= 4,
            y < 4,
            forall|k: int| 0 <= k < x ==> !#[trigger] t.occupied(1, y as int, k),
        decreases 4 - x,
    {
        if t.rotations[1][y][x] {
            assert(t.occupied(1, y as int, x as int));
            return false;
        }
        x += 1;
    }
    true
}

} // verus!

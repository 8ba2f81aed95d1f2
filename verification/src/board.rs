//! The guess board: a fixed grid of cells plus the cursor.
//!
//! The grid has `ROWS` rows (one per attempt) of `COLS` cells (one per
//! letter). The cursor `(row, col)` addresses the next letter to be typed;
//! `col == COLS` means the active row is full and can be submitted.

use vstd::prelude::*;

use crate::cell::BLANK_LETTER;
use crate::cell::Cell;
use crate::compare::status_of;
use crate::compare::statuses_of;
use crate::compare::value;
use crate::letters::upper_char;
use crate::letters::to_upper;

verus! {

/// The number of attempts a session allows.
pub const ROWS: usize = 6;

/// The length of the secret word and of every guess.
pub const COLS: usize = 5;

/// The board grid and cursor.
pub struct Board {
    /// `ROWS` rows of `COLS` cells each.
    pub cells: Vec<Vec<Cell>>,
    /// The active row: the attempt being typed. Always below `ROWS`.
    pub row: usize,
    /// The column of the next letter in the active row. At most `COLS`.
    pub col: usize,
}

impl Board {
    /// The board's shape and cursor bounds: a full grid, the cursor inside it.
    pub open spec fn wf(self) -> bool {
        &&& self.cells@.len() == ROWS
        &&& forall|r: int| 0 <= r < ROWS ==> (#[trigger] self.cells@[r])@.len() == COLS
        &&& self.row < ROWS
        &&& self.col <= COLS
    }

    /// The cell at row `r`, column `c`.
    pub open spec fn cell(self, r: int, c: int) -> Cell {
        self.cells@[r]@[c]
    }

    /// Whether every cell is untouched: blank letter, not yet guessed.
    pub open spec fn is_blank(self) -> bool {
        forall|r: int, c: int|
            0 <= r < ROWS && 0 <= c < COLS ==> (#[trigger] self.cell(r, c)).is_blank()
    }

    /// The letters of row `r`, in column order.
    pub open spec fn row_letters(self, r: int) -> Seq<char> {
        Seq::new(COLS as nat, |c: int| self.cell(r, c).letter)
    }

    /// Whether two boards hold the same cells everywhere but at `(r, c)`.
    pub open spec fn same_cells_except(self, other: Board, r: int, c: int) -> bool {
        forall|i: int, j: int|
            0 <= i < ROWS && 0 <= j < COLS && !(i == r && j == c) ==> #[trigger] self.cell(i, j)
                == other.cell(i, j)
    }

    /// Creates a blank board with the cursor at the top-left corner.
    pub fn new() -> (b: Board)
        ensures
            b.wf(),
            b.is_blank(),
            b.row == 0,
            b.col == 0,
    {
        let mut cells: Vec<Vec<Cell>> = Vec::new();
        let mut r: usize = 0;
        while r < ROWS
            invariant
                r <= ROWS,
                cells@.len() == r,
                forall|i: int| 0 <= i < r ==> (#[trigger] cells@[i])@.len() == COLS,
                forall|i: int, j: int|
                    0 <= i < r && 0 <= j < COLS ==> (#[trigger] cells@[i]@[j]).is_blank(),
            decreases ROWS - r,
        {
            let mut line: Vec<Cell> = Vec::new();
            let mut c: usize = 0;
            while c < COLS
                invariant
                    c <= COLS,
                    line@.len() == c,
                    forall|j: int| 0 <= j < c ==> (#[trigger] line@[j]).is_blank(),
                decreases COLS - c,
            {
                line.push(Cell::blank());
                c = c + 1;
            }
            cells.push(line);
            r = r + 1;
        }
        Board { cells, row: 0, col: 0 }
    }

    /// Writes the typed letter, folded to uppercase, into the cell at
    /// `(r, c)`; the cell's status and every other cell are unchanged.
    pub fn set_letter(&mut self, r: usize, c: usize, ch: char)
        requires
            old(self).wf(),
            r < ROWS,
            c < COLS,
        ensures
            final(self).wf(),
            final(self).cell(r as int, c as int).letter == upper_char(ch),
            final(self).cell(r as int, c as int).status == old(self).cell(r as int, c as int).status,
            forall|i: int, j: int|
                0 <= i < ROWS && 0 <= j < COLS && !(i == r && j == c) ==> #[trigger] final(self).cell(i, j) == old(self).cell(i, j),
            final(self).row == old(self).row,
            final(self).col == old(self).col,
    {
        let up = to_upper(ch);
        let status = self.cells[r][c].status;
        self.cells[r][c] = Cell { letter: up, status };
    }

    /// Resets the letter of the cell at `(r, c)` to blank; the cell's status
    /// and every other cell are unchanged.
    pub fn clear_letter(&mut self, r: usize, c: usize)
        requires
            old(self).wf(),
            r < ROWS,
            c < COLS,
        ensures
            final(self).wf(),
            final(self).cell(r as int, c as int).letter == BLANK_LETTER,
            final(self).cell(r as int, c as int).status == old(self).cell(r as int, c as int).status,
            forall|i: int, j: int|
                0 <= i < ROWS && 0 <= j < COLS && !(i == r && j == c) ==> #[trigger] final(self).cell(i, j) == old(self).cell(i, j),
            final(self).row == old(self).row,
            final(self).col == old(self).col,
    {
        let status = self.cells[r][c].status;
        self.cells[r][c] = Cell { letter: BLANK_LETTER, status };
    }

    /// Moves the cursor one column right; a no-op when the row is full.
    pub fn advance_cursor(&mut self)
        requires
            old(self).wf(),
        ensures
            final(self).wf(),
            final(self).cells == old(self).cells,
            forall|i: int, j: int|
                0 <= i < ROWS && 0 <= j < COLS ==> #[trigger] final(self).cell(i, j) == old(
                    self,
                ).cell(i, j),
            final(self).row == old(self).row,
            old(self).col < COLS ==> final(self).col == old(self).col + 1,
            old(self).col == COLS ==> final(self).col == old(self).col,
    {
        if self.col < COLS {
            self.col = self.col + 1;
        }
    }

    /// Moves the cursor one column left; a no-op at column 0.
    pub fn retreat_cursor(&mut self)
        requires
            old(self).wf(),
        ensures
            final(self).wf(),
            final(self).cells == old(self).cells,
            forall|i: int, j: int|
                0 <= i < ROWS && 0 <= j < COLS ==> #[trigger] final(self).cell(i, j) == old(
                    self,
                ).cell(i, j),
            final(self).row == old(self).row,
            old(self).col > 0 ==> final(self).col == old(self).col - 1,
            old(self).col == 0 ==> final(self).col == 0,
    {
        if self.col > 0 {
            self.col = self.col - 1;
        }
    }

    /// Moves the cursor to the start of the next row. The caller guarantees
    /// that a next row exists.
    pub fn advance_row(&mut self)
        requires
            old(self).wf(),
            old(self).row + 1 < ROWS,
        ensures
            final(self).wf(),
            final(self).cells == old(self).cells,
            forall|i: int, j: int|
                0 <= i < ROWS && 0 <= j < COLS ==> #[trigger] final(self).cell(i, j) == old(
                    self,
                ).cell(i, j),
            final(self).row == old(self).row + 1,
            final(self).col == 0,
    {
        self.row = self.row + 1;
        self.col = 0;
    }

    /// Writes the per-letter evaluation of row `r` against the secret into
    /// that row's statuses; letters, other rows, and the cursor are unchanged.
    pub fn commit_row_evaluation(&mut self, r: usize, secret: &str)
        requires
            old(self).wf(),
            r < ROWS,
            secret@.len() == COLS,
        ensures
            final(self).wf(),
            forall|j: int|
                0 <= j < COLS ==> #[trigger] final(self).cell(r as int, j).status == statuses_of(old(self).row_letters(r as int), secret@)[j],
            forall|j: int|
                0 <= j < COLS ==> #[trigger] final(self).cell(r as int, j).letter == old(self).cell(r as int, j).letter,
            forall|i: int, j: int|
                0 <= i < ROWS && 0 <= j < COLS && i != r ==> #[trigger] final(self).cell(i, j)
                    == old(self).cell(i, j),
            final(self).row == old(self).row,
            final(self).col == old(self).col,
    {
        let mut c: usize = 0;
        while c < COLS
            invariant
                self.wf(),
                r < ROWS,
                c <= COLS,
                secret@.len() == COLS,
                self.row == old(self).row,
                self.col == old(self).col,
                forall|i: int, j: int|
                    0 <= i < ROWS && 0 <= j < COLS && i != r ==> self.cell(i, j) == #[trigger] old(
                        self,
                    ).cell(i, j),
                forall|j: int|
                    0 <= j < COLS ==> self.cell(r as int, j).letter == #[trigger] old(self).cell(
                        r as int,
                        j,
                    ).letter,
                forall|j: int|
                    0 <= j < c ==> self.cell(r as int, j).status == status_of(
                        #[trigger] old(self).cell(r as int, j).letter,
                        secret@,
                        secret@[j],
                    ),
            decreases COLS - c,
        {
            let letter = self.cells[r][c].letter;
            let sch = secret.get_char(c);
            let st = value(letter, secret, sch);
            self.cells[r][c] = Cell { letter, status: st };
            c = c + 1;
        }
    }

    /// The letters of row `r`, in column order.
    pub fn row_text(&self, r: usize) -> (out: Vec<char>)
        requires
            self.wf(),
            r < ROWS,
        ensures
            out@ == self.row_letters(r as int),
    {
        let mut out: Vec<char> = Vec::new();
        let mut c: usize = 0;
        while c < COLS
            invariant
                self.wf(),
                r < ROWS,
                c <= COLS,
                out@.len() == c,
                forall|j: int| 0 <= j < c ==> out@[j] == self.cell(r as int, j).letter,
            decreases COLS - c,
        {
            out.push(self.cells[r][c].letter);
            c = c + 1;
        }
        proof {
            assert(out@ =~= self.row_letters(r as int));
        }
        out
    }
}

} // verus!

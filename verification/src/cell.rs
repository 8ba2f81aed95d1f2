//! One letter slot of the board: a character and its evaluation status.

use vstd::prelude::*;

verus! {

/// The letter shown in a cell that has not been typed into yet.
pub const BLANK_LETTER: char = ' ';

/// The evaluation of one guessed letter against the secret.
#[derive(Clone, Copy, PartialEq, Eq, Structural, Debug)]
pub enum CellStatus {
    /// The row has not been submitted yet.
    NotGuessed,
    /// The letter matches the secret at this exact position.
    Correct,
    /// The letter occurs in the secret, at a different position.
    Present,
    /// The letter does not occur in the secret.
    Absent,
}

/// One slot of the board grid.
#[derive(Clone, Copy, PartialEq, Eq, Structural, Debug)]
pub struct Cell {
    /// The typed letter, stored uppercase; `BLANK_LETTER` when empty.
    pub letter: char,
    /// The evaluation written when the row was submitted.
    pub status: CellStatus,
}

impl Cell {
    /// An untouched cell: blank letter, not yet guessed.
    pub open spec fn is_blank(self) -> bool {
        self.letter == BLANK_LETTER && self.status == CellStatus::NotGuessed
    }

    /// Creates an untouched cell.
    pub fn blank() -> (c: Cell)
        ensures
            c.is_blank(),
    {
        Cell { letter: BLANK_LETTER, status: CellStatus::NotGuessed }
    }
}

} // verus!

//! The game session: one board, one secret, one status, one message.
//!
//! The session is a state machine over decoded input events. While the game
//! is ongoing, characters fill the active row, delete removes the last typed
//! letter, and confirm submits a full row: a case-insensitive match wins the
//! game, the last row losing it, and any other row is evaluated and the
//! cursor moves to the next row. A finished game accepts only confirm (start
//! a fresh session from the same pool) and cancel (leave). Cancel leaves in
//! every state. The driving loop only renders the public state and feeds
//! events back in.

use vstd::prelude::*;

use crate::board::Board;
use crate::board::COLS;
use crate::board::ROWS;
use crate::cell::BLANK_LETTER;
use crate::compare::statuses_of;
use crate::letters::lower_char;
use crate::letters::lower_seq;
use crate::letters::to_lower;
use crate::letters::upper_char;
use crate::pool::EmptyPoolError;
use crate::pool::WordPool;

verus! {

/// A decoded input event; unrecognized keys never reach the session.
#[derive(Clone, Copy, PartialEq, Eq, Structural, Debug)]
pub enum InputEvent {
    /// A typed character.
    Character(char),
    /// Remove the last typed letter of the active row.
    DeleteLast,
    /// Submit the active row, or start over after a finished game.
    Confirm,
    /// Leave the game.
    Cancel,
}

/// Where the game stands.
#[derive(Clone, Copy, PartialEq, Eq, Structural, Debug)]
pub enum GameStatus {
    /// Attempts remain and the secret has not been guessed.
    Ongoing,
    /// The secret was guessed; the payload counts the attempts used.
    Won(usize),
    /// Every attempt was used without guessing the secret.
    Lost,
}

/// What the driving loop should do after an event was handled.
#[derive(Clone, Copy, PartialEq, Eq, Structural, Debug)]
pub enum Command {
    /// Render the new state and wait for the next event.
    Continue,
    /// Leave the game loop.
    Exit,
}

/// The message shown after a win.
pub open spec fn victory_message() -> Seq<char> {
    "You won!"@
}

/// The whole game state: the sole owner and mutator of its parts.
pub struct GameSession {
    /// The guess grid and cursor.
    pub board: Board,
    /// The candidates a reset draws the next secret from.
    pub pool: WordPool,
    /// The word to guess; selected from the pool, `COLS` characters long.
    pub secret: String,
    /// Where the game stands.
    pub status: GameStatus,
    /// A display message; set on a win, blank otherwise.
    pub message: String,
}

/// The parts an event never touches: the secret, the pool, the status and
/// the message (board moves aside).
pub open spec fn core_unchanged(pre: GameSession, post: GameSession) -> bool {
    &&& post.secret@ == pre.secret@
    &&& post.pool@ == pre.pool@
    &&& post.status == pre.status
    &&& post.message@ == pre.message@
}

/// The state right after typing character `c`: the letter stands uppercase
/// at the old cursor, the cursor moved one column right, nothing else moved.
pub open spec fn typed_char(pre: GameSession, post: GameSession, c: char) -> bool {
    let r = pre.board.row as int;
    let k = pre.board.col as int;
    &&& core_unchanged(pre, post)
    &&& post.board.row == pre.board.row
    &&& post.board.col == pre.board.col + 1
    &&& post.board.cell(r, k).letter == upper_char(c)
    &&& post.board.cell(r, k).status == pre.board.cell(r, k).status
    &&& post.board.same_cells_except(pre.board, r, k)
}

/// The state right after deleting the last typed letter: the cursor moved one
/// column left and the cell there is blank again, nothing else moved.
pub open spec fn deleted_last(pre: GameSession, post: GameSession) -> bool {
    let r = pre.board.row as int;
    let k = pre.board.col - 1;
    &&& core_unchanged(pre, post)
    &&& post.board.row == pre.board.row
    &&& post.board.col == pre.board.col - 1
    &&& post.board.cell(r, k).letter == BLANK_LETTER
    &&& post.board.cell(r, k).status == pre.board.cell(r, k).status
    &&& post.board.same_cells_except(pre.board, r, k)
}

/// Whether the active row's letters match the secret, case-insensitively.
pub open spec fn guess_matches(s: GameSession) -> bool {
    lower_seq(s.board.row_letters(s.board.row as int)) == lower_seq(s.secret@)
}

/// The state right after a winning submission: status `Won` with the number
/// of attempts used (the active row's index plus one), the victory message
/// set, and everything else untouched.
pub open spec fn won_now(pre: GameSession, post: GameSession) -> bool {
    &&& post.board == pre.board
    &&& post.secret@ == pre.secret@
    &&& post.pool@ == pre.pool@
    &&& post.status == GameStatus::Won((pre.board.row + 1) as usize)
    &&& post.message@ == victory_message()
}

/// The state right after the last row was submitted without matching:
/// status `Lost`, everything else untouched.
pub open spec fn lost_now(pre: GameSession, post: GameSession) -> bool {
    &&& post.board == pre.board
    &&& post.secret@ == pre.secret@
    &&& post.pool@ == pre.pool@
    &&& post.status == GameStatus::Lost
    &&& post.message@ == pre.message@
}

/// The state right after a non-final row was submitted without matching: the
/// row's statuses hold its evaluation against the secret, its letters stand,
/// the other rows are untouched, and the cursor starts the next row.
pub open spec fn row_committed(pre: GameSession, post: GameSession) -> bool {
    let r = pre.board.row as int;
    &&& core_unchanged(pre, post)
    &&& post.board.row == pre.board.row + 1
    &&& post.board.col == 0
    &&& forall|j: int|
        0 <= j < COLS ==> (#[trigger] post.board.cell(r, j)).status == statuses_of(
            pre.board.row_letters(r),
            pre.secret@,
        )[j]
    &&& forall|j: int|
        0 <= j < COLS ==> (#[trigger] post.board.cell(r, j)).letter == pre.board.cell(r, j).letter
    &&& forall|i: int, j: int|
        0 <= i < ROWS && 0 <= j < COLS && i != r ==> #[trigger] post.board.cell(i, j)
            == pre.board.cell(i, j)
}

/// A freshly started session over the given pool: a blank board, the cursor
/// at the top-left corner, status `Ongoing`, a blank message, and a secret
/// drawn from the pool.
pub open spec fn fresh_with(s: GameSession, pool: WordPool) -> bool {
    &&& s.pool@ == pool@
    &&& s.board.is_blank()
    &&& s.board.row == 0
    &&& s.board.col == 0
    &&& s.status == GameStatus::Ongoing
    &&& s.message@.len() == 0
    &&& exists|i: int| 0 <= i < pool@.len() && #[trigger] pool@[i] == s.secret@
}

impl GameSession {
    /// The session's invariant: a well-formed board, a non-empty pool of
    /// words of the secret's length, a secret of that length, and a `Won`
    /// attempt count within the number of rows.
    pub open spec fn wf(self) -> bool {
        &&& self.board.wf()
        &&& self.pool.wf()
        &&& self.pool@.len() > 0
        &&& self.secret@.len() == COLS
        &&& match self.status {
            GameStatus::Won(n) => 1 <= n <= ROWS,
            _ => true,
        }
    }

    /// Starts a session over the given pool: selects a secret at random and
    /// lays out a blank board. Fails with `EmptyPoolError` exactly when the
    /// pool is empty, producing no session.
    pub fn new(pool: WordPool) -> (r: Result<GameSession, EmptyPoolError>)
        requires
            pool.wf(),
        ensures
            (r is Ok) <==> pool@.len() > 0,
            r matches Ok(s) ==> s.wf() && fresh_with(s, pool),
    {
        match pool.select() {
            Err(e) => Err(e),
            Ok(secret) => {
                proof {
                    let i = choose|i: int| 0 <= i < pool@.len() && pool@[i] == secret@;
                    assert(pool@[i].len() == COLS);
                }
                Ok(
                    GameSession {
                        board: Board::new(),
                        pool,
                        secret,
                        status: GameStatus::Ongoing,
                        message: String::new(),
                    },
                )
            },
        }
    }

    /// Starts the game over: a blank board, status `Ongoing`, a blank
    /// message, and a new secret drawn from the same pool.
    pub fn reset(&mut self)
        requires
            old(self).wf(),
        ensures
            final(self).wf(),
            fresh_with(*final(self), old(self).pool),
    {
        match self.pool.select() {
            Ok(secret) => {
                proof {
                    let i = choose|i: int|
                        0 <= i < self.pool@.len() && self.pool@[i] == secret@;
                    assert(self.pool@[i].len() == COLS);
                }
                self.secret = secret;
                self.board = Board::new();
                self.status = GameStatus::Ongoing;
                self.message = String::new();
            },
            Err(_) => {
                proof {
                    assert(false);
                }
            },
        }
    }

    /// Handles one decoded input event and says whether the driving loop
    /// should keep going. Cancel exits from every state and changes nothing.
    /// While the game is ongoing: a character fills the cursor's cell (a
    /// no-op when the row is full), delete blanks the last typed letter (a
    /// no-op at the row's start), and confirm submits a full row (a no-op
    /// otherwise) — a case-insensitive match wins with the attempts used so
    /// far, the last row loses, and any other row is evaluated and the
    /// cursor moves on. After a win or a loss, confirm starts the game over
    /// and everything else is ignored.
    pub fn step(&mut self, ev: InputEvent) -> (cmd: Command)
        requires
            old(self).wf(),
        ensures
            final(self).wf(),
            final(self).pool@ == old(self).pool@,
            cmd == (if ev == InputEvent::Cancel {
                Command::Exit
            } else {
                Command::Continue
            }),
            ev == InputEvent::Cancel ==> *final(self) == *old(self),
            old(self).status is Ongoing ==> match ev {
                InputEvent::Cancel => *final(self) == *old(self),
                InputEvent::Character(c) => (if old(self).board.col < COLS {
                    typed_char(*old(self), *final(self), c)
                } else {
                    *final(self) == *old(self)
                }),
                InputEvent::DeleteLast => (if old(self).board.col > 0 {
                    deleted_last(*old(self), *final(self))
                } else {
                    *final(self) == *old(self)
                }),
                InputEvent::Confirm => (if old(self).board.col == COLS {
                    if guess_matches(*old(self)) {
                        won_now(*old(self), *final(self))
                    } else if old(self).board.row == ROWS - 1 {
                        lost_now(*old(self), *final(self))
                    } else {
                        row_committed(*old(self), *final(self))
                    }
                } else {
                    *final(self) == *old(self)
                }),
            },
            !(old(self).status is Ongoing) ==> match ev {
                InputEvent::Confirm => fresh_with(*final(self), old(self).pool),
                _ => *final(self) == *old(self),
            },
    {
        match ev {
            InputEvent::Cancel => Command::Exit,
            InputEvent::Character(c) => {
                match self.status {
                    GameStatus::Ongoing => {
                        if self.board.col < COLS {
                            let r = self.board.row;
                            let k = self.board.col;
                            self.board.set_letter(r, k, c);
                            self.board.advance_cursor();
                        }
                    },
                    _ => {},
                }
                Command::Continue
            },
            InputEvent::DeleteLast => {
                match self.status {
                    GameStatus::Ongoing => {
                        if self.board.col >= 1 {
                            self.board.retreat_cursor();
                            let r = self.board.row;
                            let k = self.board.col;
                            self.board.clear_letter(r, k);
                        }
                    },
                    _ => {},
                }
                Command::Continue
            },
            InputEvent::Confirm => {
                match self.status {
                    GameStatus::Ongoing => {
                        if self.board.col == COLS {
                            self.submit_guess();
                        }
                    },
                    _ => {
                        self.reset();
                    },
                }
                Command::Continue
            },
        }
    }

    /// Submits the full active row: a case-insensitive match wins, the last
    /// row loses, and any other row is evaluated and the cursor moves on.
    fn submit_guess(&mut self)
        requires
            old(self).wf(),
            old(self).status is Ongoing,
            old(self).board.col == COLS,
        ensures
            final(self).wf(),
            if guess_matches(*old(self)) {
                won_now(*old(self), *final(self))
            } else if old(self).board.row == ROWS - 1 {
                lost_now(*old(self), *final(self))
            } else {
                row_committed(*old(self), *final(self))
            },
    {
        let r = self.board.row;
        let guess = self.board.row_text(r);
        if guess_equals_secret(&guess, &self.secret) {
            self.status = GameStatus::Won(r + 1);
            self.message = String::from_str("You won!");
        } else if r == ROWS - 1 {
            self.status = GameStatus::Lost;
        } else {
            self.board.commit_row_evaluation(r, self.secret.as_str());
            self.board.advance_row();
        }
    }
}

/// Whether a full guess equals the secret, case-insensitively.
fn guess_equals_secret(guess: &Vec<char>, secret: &String) -> (b: bool)
    requires
        guess@.len() == COLS,
        secret@.len() == COLS,
    ensures
        b == (lower_seq(guess@) == lower_seq(secret@)),
{
    let s = secret.as_str();
    let mut i: usize = 0;
    while i < COLS
        invariant
            guess@.len() == COLS,
            secret@.len() == COLS,
            s@ == secret@,
            i <= COLS,
            forall|j: int| 0 <= j < i ==> lower_char(guess@[j]) == lower_char(secret@[j]),
        decreases COLS - i,
    {
        if to_lower(guess[i]) != to_lower(s.get_char(i)) {
            proof {
                assert(lower_seq(guess@)[i as int] != lower_seq(secret@)[i as int]);
            }
            return false;
        }
        i = i + 1;
    }
    proof {
        assert(lower_seq(guess@) =~= lower_seq(secret@));
    }
    true
}

} // verus!

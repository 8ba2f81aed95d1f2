use wordle::cell::CellStatus;
use wordle::pool::WordPool;
use wordle::session::Command;
use wordle::session::GameSession;
use wordle::session::GameStatus;
use wordle::session::InputEvent;

fn session_with(secret: &str) -> GameSession {
    let pool = WordPool::new(vec![secret.to_string()]);
    GameSession::new(pool).expect("the pool holds one word")
}

fn type_word(s: &mut GameSession, word: &str) {
    for c in word.chars() {
        s.step(InputEvent::Character(c));
    }
}

fn submit(s: &mut GameSession) {
    s.step(InputEvent::Confirm);
}

fn assert_blank(s: &GameSession) {
    for row in &s.board.cells {
        for cell in row {
            assert_eq!(cell.letter, ' ');
            assert_eq!(cell.status, CellStatus::NotGuessed);
        }
    }
    assert_eq!(s.board.row, 0);
    assert_eq!(s.board.col, 0);
}

#[test]
fn trace_against_crane_row_statuses() {
    let mut s = session_with("CRANE");
    type_word(&mut s, "TRACE");
    assert_eq!(s.board.col, 5);
    submit(&mut s);
    let statuses: Vec<CellStatus> = (0..5).map(|c| s.board.cells[0][c].status).collect();
    // the A of TRACE lines up with the A of CRANE, so it is Correct; only the
    // off-position C is demoted to Present
    assert_eq!(
        statuses,
        vec![
            CellStatus::Absent,
            CellStatus::Correct,
            CellStatus::Correct,
            CellStatus::Present,
            CellStatus::Correct,
        ]
    );
    assert_eq!(s.board.row, 1);
    assert_eq!(s.board.col, 0);
    assert_eq!(s.status, GameStatus::Ongoing);
    let letters: String = (0..5).map(|c| s.board.cells[0][c].letter).collect();
    assert_eq!(letters, "TRACE");
}

#[test]
fn lowercase_guess_wins_first_row() {
    let mut s = session_with("CRANE");
    type_word(&mut s, "crane");
    submit(&mut s);
    assert_eq!(s.status, GameStatus::Won(1));
    assert_eq!(s.message, "You won!");
}

#[test]
fn uppercase_guess_wins_against_lowercase_secret() {
    let mut s = session_with("crane");
    type_word(&mut s, "CRANE");
    submit(&mut s);
    assert_eq!(s.status, GameStatus::Won(1));
}

#[test]
fn win_on_third_row_counts_three_attempts() {
    let mut s = session_with("CRANE");
    type_word(&mut s, "TOAST");
    submit(&mut s);
    type_word(&mut s, "BOOKS");
    submit(&mut s);
    assert_eq!(s.board.row, 2);
    type_word(&mut s, "CrAnE");
    submit(&mut s);
    assert_eq!(s.status, GameStatus::Won(3));
}

#[test]
fn six_misses_lose_without_a_seventh_row() {
    let mut s = session_with("CRANE");
    for i in 0..6usize {
        assert_eq!(s.status, GameStatus::Ongoing);
        type_word(&mut s, "QUICK");
        submit(&mut s);
        if i < 5 {
            assert_eq!(s.board.row, i + 1);
        }
    }
    assert_eq!(s.status, GameStatus::Lost);
    assert_eq!(s.board.row, 5);
    assert_eq!(s.board.cells.len(), 6);
    // further typing is ignored once the game is lost
    type_word(&mut s, "TOAST");
    assert_eq!(s.status, GameStatus::Lost);
    assert_eq!(s.board.cells[5][0].letter, 'Q');
}

#[test]
fn reset_after_win_starts_fresh() {
    let mut s = session_with("CRANE");
    type_word(&mut s, "crane");
    submit(&mut s);
    assert_eq!(s.status, GameStatus::Won(1));
    submit(&mut s);
    assert_eq!(s.status, GameStatus::Ongoing);
    assert_blank(&s);
    assert_eq!(s.message, "");
    assert_eq!(s.secret, "CRANE");
}

#[test]
fn reset_after_loss_starts_fresh() {
    let mut s = session_with("CRANE");
    for _ in 0..6 {
        type_word(&mut s, "QUICK");
        submit(&mut s);
    }
    assert_eq!(s.status, GameStatus::Lost);
    submit(&mut s);
    assert_eq!(s.status, GameStatus::Ongoing);
    assert_blank(&s);
    assert_eq!(s.secret, "CRANE");
}

#[test]
fn cancel_exits_in_every_state() {
    let mut ongoing = session_with("CRANE");
    assert_eq!(ongoing.step(InputEvent::Cancel), Command::Exit);
    assert_eq!(ongoing.status, GameStatus::Ongoing);

    let mut won = session_with("CRANE");
    type_word(&mut won, "crane");
    submit(&mut won);
    assert_eq!(won.step(InputEvent::Cancel), Command::Exit);
    assert_eq!(won.status, GameStatus::Won(1));

    let mut other = session_with("CRANE");
    assert_eq!(other.step(InputEvent::Character('a')), Command::Continue);
    assert_eq!(other.step(InputEvent::Confirm), Command::Continue);
}

#[test]
fn finished_game_ignores_typing() {
    let mut s = session_with("CRANE");
    type_word(&mut s, "crane");
    submit(&mut s);
    type_word(&mut s, "TOAST");
    s.step(InputEvent::DeleteLast);
    assert_eq!(s.status, GameStatus::Won(1));
    assert_eq!(s.board.cells[0][0].letter, 'C');
}

#[test]
fn row_full_ignores_extra_characters() {
    let mut s = session_with("CRANE");
    type_word(&mut s, "TOAST");
    assert_eq!(s.board.col, 5);
    s.step(InputEvent::Character('x'));
    assert_eq!(s.board.col, 5);
    let letters: String = (0..5).map(|c| s.board.cells[0][c].letter).collect();
    assert_eq!(letters, "TOAST");
}

#[test]
fn backspace_removes_the_last_letter_and_stops_at_the_start() {
    let mut s = session_with("CRANE");
    s.step(InputEvent::DeleteLast);
    assert_eq!(s.board.col, 0);
    type_word(&mut s, "cr");
    assert_eq!(s.board.col, 2);
    s.step(InputEvent::DeleteLast);
    assert_eq!(s.board.col, 1);
    assert_eq!(s.board.cells[0][1].letter, ' ');
    assert_eq!(s.board.cells[0][0].letter, 'C');
    s.step(InputEvent::DeleteLast);
    s.step(InputEvent::DeleteLast);
    assert_eq!(s.board.col, 0);
    assert_eq!(s.board.cells[0][0].letter, ' ');
}

#[test]
fn partial_row_cannot_be_submitted() {
    let mut s = session_with("CRANE");
    type_word(&mut s, "CRA");
    submit(&mut s);
    assert_eq!(s.status, GameStatus::Ongoing);
    assert_eq!(s.board.row, 0);
    assert_eq!(s.board.col, 3);
    assert_eq!(s.board.cells[0][0].status, CellStatus::NotGuessed);
}

#[test]
fn empty_pool_yields_no_session() {
    let empty = WordPool::new(vec![]);
    assert!(GameSession::new(empty).is_err());
    let unusable = WordPool::new(vec!["hi".to_string(), "toolong".to_string()]);
    assert!(GameSession::new(unusable).is_err());
}

#[test]
fn new_session_is_fresh_and_secret_comes_from_the_pool() {
    let pool = WordPool::new(vec!["crane".to_string(), "toast".to_string()]);
    let s = GameSession::new(pool).expect("the pool holds two words");
    assert_blank(&s);
    assert_eq!(s.status, GameStatus::Ongoing);
    assert_eq!(s.message, "");
    assert!(s.secret == "crane" || s.secret == "toast");
}

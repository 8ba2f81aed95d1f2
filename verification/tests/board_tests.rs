use wordle::board::Board;
use wordle::cell::CellStatus;

#[test]
fn new_board_is_blank() {
    let b = Board::new();
    assert_eq!(b.cells.len(), 6);
    for row in &b.cells {
        assert_eq!(row.len(), 5);
        for cell in row {
            assert_eq!(cell.letter, ' ');
            assert_eq!(cell.status, CellStatus::NotGuessed);
        }
    }
    assert_eq!(b.row, 0);
    assert_eq!(b.col, 0);
}

#[test]
fn cursor_stops_at_the_edges() {
    let mut b = Board::new();
    b.retreat_cursor();
    assert_eq!(b.col, 0);
    for _ in 0..7 {
        b.advance_cursor();
    }
    assert_eq!(b.col, 5);
    for _ in 0..7 {
        b.retreat_cursor();
    }
    assert_eq!(b.col, 0);
    assert_eq!(b.row, 0);
}

#[test]
fn set_letter_stores_uppercase_and_clear_blanks_it() {
    let mut b = Board::new();
    b.set_letter(0, 0, 'q');
    assert_eq!(b.cells[0][0].letter, 'Q');
    assert_eq!(b.cells[0][0].status, CellStatus::NotGuessed);
    b.set_letter(2, 3, 'W');
    assert_eq!(b.cells[2][3].letter, 'W');
    b.clear_letter(0, 0);
    assert_eq!(b.cells[0][0].letter, ' ');
    assert_eq!(b.cells[2][3].letter, 'W');
}

#[test]
fn commit_row_evaluation_writes_statuses() {
    let mut b = Board::new();
    for (i, ch) in "TRACE".chars().enumerate() {
        b.set_letter(0, i, ch);
    }
    b.commit_row_evaluation(0, "crane");
    let statuses: Vec<CellStatus> = (0..5).map(|c| b.cells[0][c].status).collect();
    assert_eq!(
        statuses,
        vec![
            CellStatus::Absent,
            CellStatus::Correct,
            CellStatus::Correct,
            CellStatus::Present,
            CellStatus::Correct,
        ]
    );
    // the letters stay, and the next row is untouched
    assert_eq!(b.cells[0][0].letter, 'T');
    assert_eq!(b.cells[1][0].status, CellStatus::NotGuessed);
}

#[test]
fn row_text_returns_the_letters() {
    let mut b = Board::new();
    for (i, ch) in "toast".chars().enumerate() {
        b.set_letter(0, i, ch);
    }
    assert_eq!(b.row_text(0), vec!['T', 'O', 'A', 'S', 'T']);
    assert_eq!(b.row_text(1), vec![' ', ' ', ' ', ' ', ' ']);
}

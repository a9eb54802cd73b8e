use quarto::board::{Board, PIECE_SIZE};
use quarto::printable::{Piece, PrintableBoard};

fn piece(hole: bool, square: bool, high: bool, dark: bool) -> Option<Piece> {
    Some(Piece { hole, square, high, dark })
}

fn board_of(items: Vec<Option<Piece>>) -> Board {
    let pboard: PrintableBoard = match PrintableBoard::from_list(items) {
        Some(board) => board,
        None => panic!("Unable to construct printable board!"),
    };
    match Board::from_printable(&pboard) {
        Ok(b) => b,
        Err(e) => panic!("Failed to construct board! {}", e),
    }
}

#[test]
fn test_new_board() {
    let board = Board::new();
    assert_eq!(board.items(), 0);
}

#[test]
fn test_items() {
    let board = Board::new();
    assert_eq!(board.items(), 0);
}

#[test]
fn test_row_empty_board() {
    let board = Board::new();
    // Assert that a new board has no full rows.
    for r in 0..4 {
        assert!(!board.row(r));
    }
}

#[test]
fn test_column_empty_board() {
    let board = Board::new();
    // Assert that a new board has no full columns.
    for c in 0..4 {
        assert!(!board.column(c));
    }
}

#[test]
fn test_is_empty_new_board() {
    let board: Board = Board::new();
    for x in 0..16 {
        assert!(board.is_empty(x));
    }
}

#[test]
fn test_is_empty_non_empty_board() {
    let board: Board = Board::from_u128(1);
    assert!(!board.is_empty(15));
    for x in 0..15 {
        assert!(board.is_empty(x));
    }
}

#[test]
fn test_row_first() {
    let num: u128 = (1 << (127 - 31)) + (1 << (127 - 23)) + (1 << (127 - 15)) + (1 << (127 - 7));
    let board = Board::from_u128(num);
    assert!(board.row(0));
    for row in 1..4 {
        assert!(!board.row(row))
    }
}

#[test]
fn test_column_first() {
    let num: u128 = (1 << (127 - 7)) + (1 << (127 - 39)) + (1 << (127 - 71)) + (1 << (127 - 103));
    let board = Board::from_u128(num);
    assert!(board.column(0));
    for column in 1..4 {
        assert!(!board.column(column))
    }
}

#[test]
fn test_winning_row_empty_board() {
    let board: Board = Board::new();
    for x in 0..4 {
        assert!(!board.winning_row(x))
    }
}

#[test]
fn test_winning_column_empty_board() {
    let board: Board = Board::new();
    for x in 0..4 {
        assert!(!board.winning_column(x))
    }
}

#[test]
fn test_winning_row_winning_row() {
    let mut pboard_items: Vec<Option<Piece>> = Vec::new();
    pboard_items.push(piece(true, false, false, false));
    pboard_items.push(piece(true, true, false, false));
    pboard_items.push(piece(true, false, true, false));
    pboard_items.push(piece(true, false, false, true));
    for _ in 0..12 {
        pboard_items.push(None);
    }
    let board = board_of(pboard_items);
    assert!(board.winning_row(0));
    for i in 1..4 {
        assert!(!board.winning_row(i));
    }
}

#[test]
fn test_winning_row_non_winning_row() {
    let mut pboard_items: Vec<Option<Piece>> = Vec::new();
    pboard_items.push(piece(true, false, false, false));
    pboard_items.push(piece(false, true, false, false));
    pboard_items.push(piece(false, false, true, false));
    pboard_items.push(piece(false, false, false, true));
    for _ in 0..12 {
        pboard_items.push(None);
    }
    let board = board_of(pboard_items);
    for i in 0..4 {
        assert!(!board.winning_row(i));
    }
}

#[test]
fn test_winning_column_winning_column() {
    let mut pboard_items: Vec<Option<Piece>> = Vec::new();
    pboard_items.push(piece(true, false, false, false));
    for _ in 0..3 {
        pboard_items.push(None);
    }
    pboard_items.push(piece(true, true, false, false));
    for _ in 0..3 {
        pboard_items.push(None);
    }
    pboard_items.push(piece(true, false, true, false));
    for _ in 0..3 {
        pboard_items.push(None);
    }
    pboard_items.push(piece(true, false, false, true));
    for _ in 0..3 {
        pboard_items.push(None);
    }
    let board = board_of(pboard_items);
    assert!(board.winning_column(0));
    for i in 1..4 {
        assert!(!board.winning_column(i));
    }
}

#[test]
fn test_winning_column_non_winning_column() {
    let mut pboard_items: Vec<Option<Piece>> = Vec::new();
    pboard_items.push(piece(true, false, false, false));
    for _ in 0..3 {
        pboard_items.push(None);
    }
    pboard_items.push(piece(false, true, false, false));
    for _ in 0..3 {
        pboard_items.push(None);
    }
    pboard_items.push(piece(false, false, true, false));
    for _ in 0..3 {
        pboard_items.push(None);
    }
    pboard_items.push(piece(false, false, false, true));
    for _ in 0..3 {
        pboard_items.push(None);
    }
    let board = board_of(pboard_items);
    for i in 0..4 {
        assert!(!board.winning_column(i));
    }
}

#[test]
fn test_winning_diagonal_empty_board() {
    let board: Board = Board::new();
    assert!(!board.winning_diagonal());
}

#[test]
fn test_winning_diagonal_non_winning() {
    let mut items: Vec<Option<Piece>> = Vec::new();
    items.push(piece(true, false, false, false));
    for _ in 0..4 {
        items.push(None);
    }
    items.push(piece(false, true, false, false));
    for _ in 0..4 {
        items.push(None);
    }
    items.push(piece(false, false, true, false));
    for _ in 0..4 {
        items.push(None);
    }
    items.push(piece(false, false, false, true));
    let board = board_of(items);
    assert!(!board.winning_diagonal())
}

#[test]
fn test_winning_diagonal_winning() {
    let mut items: Vec<Option<Piece>> = Vec::new();
    items.push(piece(true, false, false, false));
    for _ in 0..4 {
        items.push(None);
    }
    items.push(piece(true, true, false, false));
    for _ in 0..4 {
        items.push(None);
    }
    items.push(piece(true, false, true, false));
    for _ in 0..4 {
        items.push(None);
    }
    items.push(piece(true, false, false, true));
    let board = board_of(items);
    assert!(board.winning_diagonal())
}

#[test]
fn test_put_invalid_piece() {
    let mut board: Board = Board::new();
    assert!(!board.put_piece(16, 0));
    assert_eq!(board.items(), 0);
    assert!(!board.put_piece(0, 16));
    assert_eq!(board.items(), 0);
}

#[test]
fn test_put_duplicate_piece() {
    let mut board: Board = Board::new();
    // First attempt to put piece 0 on the board.
    assert!(board.put_piece(0, 0));
    // Then try to put piece 0 again, but now in a different spot.
    assert!(!board.put_piece(0, 1));
}

#[test]
fn test_put_valid_piece() {
    let mut board: Board = Board::new();
    assert!(board.put_piece(1, 0));
    assert_ne!(board.items(), 0);
    let pboard: PrintableBoard = PrintableBoard::from_board(board);
    let items = pboard.items();
    match items.first() {
        Some(option) => match option {
            Some(piece) => assert_eq!(
                *piece,
                Piece {
                    hole: false,
                    square: false,
                    high: false,
                    dark: true
                }
            ),
            None => panic!("There is no piece in the first spot!"),
        },
        None => panic!("Unable to get first item from the printable board!"),
    }
}

#[test]
fn test_board_full_empty_board() {
    let board: Board = Board::new();
    assert!(!board.board_full());
}

#[test]
fn test_board_full() {
    let mut items: u128 = 0;
    for i in 0..16 {
        items += 1 << (i * PIECE_SIZE);
    }
    let board: Board = Board::from_u128(items);
    assert!(board.board_full());
}

#[test]
fn test_board_full_almost_full() {
    let mut items: u128 = 0;
    // Lets only put 10 pieces on the board.
    for i in 0..10 {
        items += 1 << (i * PIECE_SIZE);
    }
    let board: Board = Board::from_u128(items);
    assert!(!board.board_full());
}

#[test]
fn test_has_winner_new_board() {
    let board: Board = Board::new();
    assert!(!board.has_winner());
}

#[test]
fn test_has_winner_actual_winning() {
    let mut items: Vec<Option<Piece>> = Vec::new();
    // Add 4 items in a row that have a hole and nothing else in common.
    items.push(piece(true, false, false, false));
    items.push(piece(true, true, false, false));
    items.push(piece(true, false, true, false));
    items.push(piece(true, false, false, true));
    // Add empty spaces.
    for _ in 0..12 {
        items.push(None);
    }
    let board = board_of(items);
    assert!(board.has_winner())
}

use quarto::board::Board;
use quarto::printable::{Piece, PrintableBoard};

#[test]
fn test_pp_exists() {
    // When the existence bit is not set, there is no piece
    for x in 1u8..8u8 {
        assert_eq!(Piece::from_u8(1u8 << x), None);
    }
    // When the existence bit is set, there should be a piece
    for x in 1u8..8u8 {
        assert_ne!(Piece::from_u8((1u8 << x) + 1), None);
    }
}

#[test]
fn pp_from_u8() {
    // When only the existence bit is set, all items should be empty.
    assert_eq!(
        Piece::from_u8(1),
        Some(Piece {
            hole: false,
            square: false,
            high: false,
            dark: false
        })
    );
    assert_eq!(
        Piece::from_u8(129),
        Some(Piece {
            hole: true,
            square: false,
            high: false,
            dark: false
        })
    );
}

#[test]
fn test_pp_to_number() {
    let piece = match Piece::from_u8(1) {
        Some(piece) => piece,
        None => panic!("This is not supposed to happen, check Piece::from_u8()!"),
    };
    assert_eq!(piece.to_number(), 0)
}

#[test]
fn test_board_conversion_arb_length() {
    assert_eq!(PrintableBoard::from_list(Vec::new()), None);
}

#[test]
fn test_board_conversion_correct_list() {
    let mut pieces: Vec<Option<Piece>> = Vec::new();
    for i in 0..16 {
        let piece: Option<Piece> = Piece::from_u8((i << 4) + 1);
        pieces.push(piece);
    }

    let pboard: PrintableBoard = match PrintableBoard::from_list(pieces) {
        Some(pboard) => pboard,
        None => panic!("PrintableBoard not correctly initialized!"),
    };

    let board: Board = match Board::from_printable(&pboard) {
        Ok(b) => b,
        Err(_) => panic!("Board conversion failed!"),
    };

    match Board::from_printable(&PrintableBoard::from_board(board)) {
        Ok(board2) => assert_eq!(board, board2),
        Err(_) => panic!("Double conversion failed!"),
    };
}

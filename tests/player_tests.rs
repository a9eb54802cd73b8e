use quarto::board::Board;
use quarto::player::{ComputerPlayer, Player};
use quarto::strategy::{DumbStrategy, NaiveStrategy};

#[test]
fn test_get_move_from_dumb_full_board() {
    let mut board: Board = Board::new();
    for i in 0..16 {
        board.put_piece(i, i);
    }
    let player = ComputerPlayer::new(DumbStrategy);
    match player.get_move(&board, 0) {
        Some(n) => panic!(
            "Strategy came back with number {}, while there is no valid space!",
            n
        ),
        None => (),
    }
}

#[test]
fn test_get_piece_from_dumb_full_board() {
    let mut board: Board = Board::new();
    for i in 0..16 {
        board.put_piece(i, i);
    }
    let player = ComputerPlayer::new(DumbStrategy);
    match player.get_piece(&board) {
        Some(n) => panic!(
            "Strategy came back with number {}, while there is no valid space!",
            n
        ),
        None => (),
    }
}

#[test]
fn test_get_move_from_naive_full_board() {
    let mut board: Board = Board::new();
    for i in 0..16 {
        board.put_piece(i, i);
    }
    let player = ComputerPlayer::new(NaiveStrategy);
    match player.get_move(&board, 0) {
        Some(n) => panic!(
            "Strategy came back with number {}, while there is no valid space!",
            n
        ),
        None => (),
    }
}

#[test]
fn test_get_piece_from_naive_full_board() {
    let mut board: Board = Board::new();
    for i in 0..16 {
        board.put_piece(i, i);
    }
    let player = ComputerPlayer::new(NaiveStrategy);
    match player.get_piece(&board) {
        Some(n) => panic!(
            "Strategy came back with number {}, while there is no valid space!",
            n
        ),
        None => (),
    }
}

#[test]
fn test_get_move_from_dumb_nearly_full_board() {
    let mut board: Board = Board::new();
    for i in 0..15 {
        board.put_piece(i, i);
    }
    let player = ComputerPlayer::new(DumbStrategy);
    match player.get_move(&board, 0) {
        Some(n) => assert_eq!(n, 15),
        None => panic!("Strategy gave no move, but the board still has an empty space!"),
    }
}

#[test]
fn test_get_piece_from_dumb_nearly_full_board() {
    let mut board: Board = Board::new();
    for i in 0..15 {
        board.put_piece(i, i);
    }
    let player = ComputerPlayer::new(DumbStrategy);
    match player.get_piece(&board) {
        Some(n) => assert_eq!(n, 15),
        None => panic!("Strategy gave no piece, but the board still has an empty space!"),
    }
}

#[test]
fn test_get_move_from_naive_nearly_full_board() {
    let mut board: Board = Board::new();
    for i in 0..15 {
        board.put_piece(i, i);
    }
    let player = ComputerPlayer::new(NaiveStrategy);
    match player.get_move(&board, 0) {
        Some(n) => assert_eq!(n, 15),
        None => panic!("Strategy gave no move, but the board still has an empty space!"),
    }
}

#[test]
fn test_get_piece_from_naive_nearly_full_board() {
    let mut board: Board = Board::new();
    for i in 0..15 {
        board.put_piece(i, i);
    }
    let player = ComputerPlayer::new(NaiveStrategy);
    match player.get_piece(&board) {
        Some(n) => assert_eq!(n, 15),
        None => panic!("Strategy gave no piece, but the board still has an empty space!"),
    }
}

#[test]
fn test_get_move_from_dumb_empty_board() {
    let board: Board = Board::new();
    let player = ComputerPlayer::new(DumbStrategy);
    match player.get_move(&board, 0) {
        Some(m) => assert!(m < 16),
        None => panic!("Strategy gave no move, but the board still has an empty space!"),
    }
}

#[test]
fn test_get_piece_from_dumb_empty_board() {
    let board: Board = Board::new();
    let player = ComputerPlayer::new(DumbStrategy);
    match player.get_piece(&board) {
        Some(m) => assert!(m < 16),
        None => panic!("Strategy gave no move, but the board still has an empty space!"),
    }
}

#[test]
fn test_get_move_from_naive_empty_board() {
    let board: Board = Board::new();
    let player = ComputerPlayer::new(NaiveStrategy);
    match player.get_move(&board, 0) {
        Some(m) => assert!(m < 16),
        None => panic!("Strategy gave no move, but the board still has an empty space!"),
    }
}

#[test]
fn test_get_piece_from_naive_empty_board() {
    let board: Board = Board::new();
    let player = ComputerPlayer::new(NaiveStrategy);
    match player.get_piece(&board) {
        Some(m) => assert!(m < 16),
        None => panic!("Strategy gave no move, but the board still has an empty space!"),
    }
}

use quarto::game::{GameResult, QuartoGame};
use quarto::player::ComputerPlayer;
use quarto::strategy::{DeterministicStrategy, DumbStrategy};

#[test]
fn test_new_game_empty_board() {
    let player1 = ComputerPlayer::new(DumbStrategy);
    let player2 = ComputerPlayer::new(DumbStrategy);
    let game = QuartoGame::new(player1, player2);
    for i in 0..16 {
        assert!(game.board().is_empty(i));
    }
    assert_eq!(game.current(), 0)
}

#[test]
fn test_play_game_without_call_with_dumb_bots() {
    let player1 = ComputerPlayer::new(DumbStrategy);
    let player2 = ComputerPlayer::new(DumbStrategy);
    let mut game = QuartoGame::new(player1, player2);
    let res = game.play_without_call();
    assert_ne!(res, GameResult::Error);
}

#[test]
fn test_play_game_without_call_with_deterministic_bots() {
    let player1 = ComputerPlayer::new(DeterministicStrategy);
    let player2 = ComputerPlayer::new(DeterministicStrategy);
    let mut game = QuartoGame::new(player1, player2);
    let res = game.play_without_call();
    assert_ne!(res, GameResult::Error);
}

#[test]
fn test_reset_game() {
    let player1 = ComputerPlayer::new(DeterministicStrategy);
    let player2 = ComputerPlayer::new(DeterministicStrategy);
    let mut game = QuartoGame::new(player1, player2);
    game.play_without_call();
    game.reset();
    for i in 0..16 {
        assert!(game.board().is_empty(i));
    }
}

//! One game of Quarto between two players, without calls of Quarto.

use vstd::prelude::*;
use crate::board::{
    all_occupied, empty_cells, empty_count, has_winning_line, lemma_fill_cell_count, lemma_piece_byte,
    piece_byte, well_formed, Board,
};
use crate::player::Player;

verus! {

/// Two players taking turns on one board.
pub struct QuartoGame<P1: Player, P2: Player> {
    player1: P1,
    player2: P2,
    current: usize,
    board: Board,
}

/// How a game ended.
#[derive(Debug, PartialEq, Eq, Structural, Copy, Clone)]
pub enum GameResult {
    /// A player had no answer, so the game stopped early.
    Error,
    /// The board filled up without a winning line.
    Draw,
    /// The player with this number (0 or 1) made a winning line.
    Win(usize),
}

impl<P1: Player, P2: Player> QuartoGame<P1, P2> {
    /// The number of the player to move next is 0 or 1.
    #[verifier::type_invariant]
    spec fn current_is_player(self) -> bool {
        self.current < 2
    }

    /// The board of the game.
    pub closed spec fn board_of(self) -> Board {
        self.board
    }

    /// The number of the player whose turn it is.
    pub closed spec fn current_of(self) -> usize {
        self.current
    }

    /// Build a new game on an empty board; the first player starts.
    pub fn new(player1: P1, player2: P2) -> (r: Self)
        ensures
            r.board_of().bits() == 0,
            r.board_of()@ == empty_cells(),
            r.current_of() == 0,
    {
        Self { player1, player2, current: 0, board: Board::new() }
    }

    /// Advance the game to the next player.
    fn next_player(&mut self)
        ensures
            final(self).current_of() == 1 - old(self).current_of(),
            final(self).board_of() == old(self).board_of(),
    {
        proof {
            use_type_invariant(&*self);
        }
        self.current = 1 - self.current;
    }

    /// Play one game to its end, without asking the players to call Quarto. Returns
    /// the number of the player who made a winning line, `Draw` for a full board
    /// without one, and `Error` when a player had no answer.
    pub fn play_without_call(&mut self) -> (r: GameResult)
        ensures
            r matches GameResult::Win(p) ==> p < 2 && p == final(self).current_of() && has_winning_line(
                final(self).board_of()@,
            ),
            r == GameResult::Draw ==> all_occupied(final(self).board_of()@) && !has_winning_line(
                final(self).board_of()@,
            ),
            r != GameResult::Error <==> has_winning_line(final(self).board_of()@) || all_occupied(
                final(self).board_of()@,
            ),
            well_formed(old(self).board_of()@) ==> well_formed(final(self).board_of()@),
    {
        while !self.board.game_over()
            invariant
                well_formed(old(self).board_of()@) ==> well_formed(self.board@),
            decreases empty_count(self.board@, 16),
        {
            let answer = if self.current == 0 {
                self.player1.get_piece(&self.board)
            } else {
                self.player2.get_piece(&self.board)
            };
            let piece: u8 = match answer {
                Some(p) => p,
                None => return GameResult::Error,
            };
            self.next_player();
            let answer = if self.current == 0 {
                self.player1.get_move(&self.board, piece)
            } else {
                self.player2.get_move(&self.board, piece)
            };
            let player_move = match answer {
                Some(m) => m,
                None => return GameResult::Error,
            };
            let mut board = self.board;
            let ghost before = board@;
            // Both answers are legal on this board, so the piece is placed.
            let placed = board.put_piece(piece, player_move);
            self.board = board;
            proof {
                assert(placed);
                lemma_piece_byte(piece);
                lemma_fill_cell_count(before, player_move as int, piece_byte(piece), 16);
            }
        }
        proof {
            use_type_invariant(&*self);
        }
        if self.board.has_winner() {
            return GameResult::Win(self.current);
        }
        GameResult::Draw
    }

    /// A copy of the board.
    pub fn board(&self) -> (r: Board)
        ensures
            r == self.board_of(),
    {
        self.board
    }

    /// The number of the player whose turn it is.
    pub fn current(&self) -> (r: usize)
        ensures
            r == self.current_of(),
            r < 2,
    {
        proof {
            use_type_invariant(self);
        }
        self.current
    }

    /// Reset the game to an empty board and the first player, keeping the players.
    pub fn reset(&mut self)
        ensures
            final(self).board_of().bits() == 0,
            final(self).board_of()@ == empty_cells(),
            final(self).current_of() == 0,
    {
        self.current = 0;
        self.board = Board::new();
    }
}

} // verus!

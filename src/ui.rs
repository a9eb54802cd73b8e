//! What a human player's interface must offer.

use vstd::prelude::*;
use crate::board::Board;

verus! {

/// A problem with what the player entered.
#[derive(Debug, PartialEq, Eq, Structural, Copy, Clone)]
pub enum Warning {
    /// The piece with this ordinal cannot be placed.
    IncorrectPiece(u8),
    /// A piece cannot be put on the cell with this index.
    IncorrectIndex(u8),
}

/// Any interface for a `HumanPlayer` implements these functions.
pub trait PlayerInterface {
    /// Ask for the ordinal of the piece to hand to the opponent.
    fn prompt_for_piece(&self, board: &Board) -> u8;

    /// Ask for the index of the cell to put `piece` on.
    fn prompt_for_move(&self, board: &Board, piece: u8) -> u8;

    /// Ask whether the player wants to call Quarto.
    fn ask_quarto(&self, board: &Board) -> bool;

    /// Tell the player that the last answer was refused.
    fn warn_player(&self, warning: Warning);

    /// Show the board to the player.
    fn show_game_board(&self, board: &Board);
}

} // verus!

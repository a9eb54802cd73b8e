//! Players of a Quarto game: a human behind an interface, or a computer that
//! follows a `Strategy`.

use vstd::prelude::*;
use crate::board::{all_occupied, available, has_winning_line, occupied, well_formed, Board};
use crate::theorems::lemma_piece_left;
use crate::ui::{PlayerInterface, Warning};
pub use crate::strategy::{DumbStrategy, NaiveStrategy, SmartStrategy, Strategy};

verus! {

/// Anything that can play Quarto: choose the piece for the opponent, place a piece,
/// and call Quarto. Whatever it answers is a legal choice on the board it was given.
pub trait Player {
    /// Get the piece for the opponent to play.
    fn get_piece(&self, board: &Board) -> (r: Option<u8>)
        ensures
            r matches Some(p) ==> p < 16 && available(board@, p),
    ;

    /// Decide where to place the given piece.
    fn get_move(&self, board: &Board, piece: u8) -> (r: Option<u8>)
        ensures
            r matches Some(m) ==> m < 16 && !occupied(board@[m as int]),
    ;

    /// Ask the player whether they call Quarto.
    fn quarto(&self, board: &Board) -> bool;
}

/// A player whose choices come from a person through an interface.
pub struct HumanPlayer<I: PlayerInterface> {
    interface: I,
}

/// A player whose choices come from a `Strategy`.
pub struct ComputerPlayer<T: Strategy> {
    strategy: T,
}

impl<I: PlayerInterface> HumanPlayer<I> {
    /// The interface the player talks through.
    pub closed spec fn interface_of(self) -> I {
        self.interface
    }

    /// Create a `HumanPlayer` that talks through `interface`.
    pub fn new(interface: I) -> (r: HumanPlayer<I>)
        ensures
            r.interface_of() == interface,
    {
        HumanPlayer { interface }
    }
}

impl<T: Strategy> ComputerPlayer<T> {
    /// The strategy the player follows.
    pub closed spec fn strategy_of(self) -> T {
        self.strategy
    }

    /// Create a new `ComputerPlayer` with a given `Strategy`.
    pub fn new(strategy: T) -> (r: ComputerPlayer<T>)
        ensures
            r.strategy_of() == strategy,
    {
        ComputerPlayer { strategy }
    }
}

impl<I: PlayerInterface> Player for HumanPlayer<I> {
    /// Ask the person for a piece; a piece that cannot be placed is refused with a warning.
    fn get_piece(&self, board: &Board) -> (r: Option<u8>) {
        self.interface.show_game_board(board);
        let piece = self.interface.prompt_for_piece(board);
        if board.valid_piece(piece) {
            Some(piece)
        } else {
            self.interface.warn_player(Warning::IncorrectPiece(piece));
            None
        }
    }

    /// Ask the person for a cell; a cell that is taken or off the board is refused with a warning.
    fn get_move(&self, board: &Board, piece: u8) -> (r: Option<u8>) {
        self.interface.show_game_board(board);
        let index = self.interface.prompt_for_move(board, piece);
        if board.is_empty(index) {
            Some(index)
        } else {
            self.interface.warn_player(Warning::IncorrectIndex(index));
            None
        }
    }

    fn quarto(&self, board: &Board) -> bool {
        self.interface.ask_quarto(board)
    }
}

impl<T: Strategy> Player for ComputerPlayer<T> {
    /// The strategy's piece; on a board built by legal placements there is one
    /// until the board is full.
    fn get_piece(&self, board: &Board) -> (r: Option<u8>)
        ensures
            r is None <==> forall|n: u8| n < 16 ==> !available(board@, n),
            well_formed(board@) && !all_occupied(board@) ==> r is Some,
    {
        proof {
            if well_formed(board@) && !all_occupied(board@) {
                lemma_piece_left(board@);
            }
        }
        self.strategy.get_piece(board)
    }

    fn get_move(&self, board: &Board, piece: u8) -> (r: Option<u8>)
        ensures
            r is None <==> all_occupied(board@),
    {
        self.strategy.get_move(board, piece)
    }

    fn quarto(&self, board: &Board) -> (r: bool)
        ensures
            r ==> has_winning_line(board@),
    {
        self.strategy.quarto(board)
    }
}

} // verus!

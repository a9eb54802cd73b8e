//! Strategies that decide for a computer player: which piece to hand over, where
//! to put a piece, and whether to call Quarto.

use vstd::prelude::*;
use crate::board::{all_occupied, available, has_winning_line, occupied, Board};

verus! {

/// Relies on `fastrand::usize` with the range `..n`: a number in `0..n`, drawn from
/// the thread-local generator. It panics on an empty range, so `n` is positive.
#[verifier::external_body]
fn random_below(n: usize) -> (r: usize)
    requires
        n > 0,
    ensures
        r < n,
{
    fastrand::usize(..n)
}

/// How a `ComputerPlayer` decides: the piece for the opponent, its own moves, and
/// whether to call Quarto.
pub trait Strategy {
    /// Calculate which piece the opponent should use; `None` only when no piece is left.
    fn get_piece(&self, board: &Board) -> (r: Option<u8>)
        ensures
            r matches Some(p) ==> p < 16 && available(board@, p),
            r is None <==> forall|n: u8| n < 16 ==> !available(board@, n),
    ;

    /// Calculate where to put `piece`; `None` only when the board is full.
    fn get_move(&self, board: &Board, piece: u8) -> (r: Option<u8>)
        ensures
            r matches Some(m) ==> m < 16 && !occupied(board@[m as int]),
            r is None <==> all_occupied(board@),
    ;

    /// Decide whether to call Quarto; never without a winning line on the board.
    fn quarto(&self, board: &Board) -> (r: bool)
        ensures
            r ==> has_winning_line(board@),
    ;
}

/// Picks pieces and cells at random, and forgets to call Quarto now and then.
pub struct DumbStrategy;

/// Picks pieces and cells at random, and always calls Quarto on a win.
pub struct NaiveStrategy;

/// A strategy that would look ahead; it has no behaviour of its own.
pub struct SmartStrategy;

/// Picks the lowest available piece and the first empty cell.
pub struct DeterministicStrategy;

/// A random piece among those still available.
fn random_piece(board: &Board) -> (r: Option<u8>)
    ensures
        r matches Some(p) ==> p < 16 && available(board@, p),
        r is None <==> forall|n: u8| n < 16 ==> !available(board@, n),
{
    let valid_pieces = board.valid_pieces();
    if valid_pieces.len() == 0 {
        assert forall|n: u8| n < 16 implies !available(board@, n) by {
            assert(!valid_pieces@.contains(n));
        }
        return None;
    }
    let i = random_below(valid_pieces.len());
    assert(valid_pieces@.contains(valid_pieces@[i as int]));
    assert(valid_pieces@.contains(valid_pieces@[0]));
    Some(valid_pieces[i])
}

/// A random empty cell.
fn random_space(board: &Board) -> (r: Option<u8>)
    ensures
        r matches Some(m) ==> m < 16 && !occupied(board@[m as int]),
        r is None <==> all_occupied(board@),
{
    let empty_spaces = board.empty_spaces();
    if empty_spaces.len() == 0 {
        assert forall|i: int| 0 <= i < 16 implies occupied(#[trigger] board@[i]) by {
            assert(!empty_spaces@.contains(i as u8));
        }
        return None;
    }
    let i = random_below(empty_spaces.len());
    assert(empty_spaces@.contains(empty_spaces@[i as int]));
    assert(empty_spaces@.contains(empty_spaces@[0]));
    Some(empty_spaces[i])
}

impl Strategy for DumbStrategy {
    /// Select a random piece for the opponent.
    fn get_piece(&self, board: &Board) -> (r: Option<u8>) {
        random_piece(board)
    }

    /// Select a random place to put the piece on, whatever the piece.
    fn get_move(&self, board: &Board, _piece: u8) -> (r: Option<u8>) {
        random_space(board)
    }

    /// Call Quarto on a win, but not on about one in ten.
    fn quarto(&self, board: &Board) -> (r: bool) {
        if board.has_winner() && random_below(10) != 0 {
            return true;
        }
        false
    }
}

impl Strategy for NaiveStrategy {
    /// Select a random piece for the opponent.
    fn get_piece(&self, board: &Board) -> (r: Option<u8>) {
        random_piece(board)
    }

    /// Select a random place to put the piece on, whatever the piece.
    fn get_move(&self, board: &Board, _piece: u8) -> (r: Option<u8>) {
        random_space(board)
    }

    /// Always call Quarto when the board has a winner.
    fn quarto(&self, board: &Board) -> (r: bool)
        ensures
            r == has_winning_line(board@),
    {
        board.has_winner()
    }
}

impl Strategy for DeterministicStrategy {
    /// Select the lowest available piece for the opponent.
    fn get_piece(&self, board: &Board) -> (r: Option<u8>)
        ensures
            r matches Some(p) ==> forall|n: u8| n < p ==> !available(board@, n),
    {
        let valid_pieces = board.valid_pieces();
        if valid_pieces.len() == 0 {
            assert forall|n: u8| n < 16 implies !available(board@, n) by {
                assert(!valid_pieces@.contains(n));
            }
            return None;
        }
        assert(valid_pieces@.contains(valid_pieces@[0]));
        proof {
            assert forall|n: u8| n < valid_pieces@[0] implies !available(board@, n) by {
                if available(board@, n) {
                    assert(valid_pieces@.contains(n));
                    let k = choose|k: int| 0 <= k < valid_pieces@.len() && valid_pieces@[k] == n;
                    if k > 0 {
                        assert(valid_pieces@[0] < valid_pieces@[k]);
                    }
                }
            }
        }
        Some(valid_pieces[0])
    }

    /// Select the first empty cell, whatever the piece.
    fn get_move(&self, board: &Board, _piece: u8) -> (r: Option<u8>)
        ensures
            r matches Some(m) ==> forall|i: int| 0 <= i < m ==> occupied(#[trigger] board@[i]),
    {
        let empty_spaces = board.empty_spaces();
        if empty_spaces.len() == 0 {
            assert forall|i: int| 0 <= i < 16 implies occupied(#[trigger] board@[i]) by {
                assert(!empty_spaces@.contains(i as u8));
            }
            return None;
        }
        assert(empty_spaces@.contains(empty_spaces@[0]));
        proof {
            assert forall|i: int| 0 <= i < empty_spaces@[0] implies occupied(#[trigger] board@[i]) by {
                if !occupied(board@[i]) {
                    assert(empty_spaces@.contains(i as u8));
                    let k = choose|k: int| 0 <= k < empty_spaces@.len() && empty_spaces@[k] == i as u8;
                    if k > 0 {
                        assert(empty_spaces@[0] < empty_spaces@[k]);
                    }
                }
            }
        }
        Some(empty_spaces[0])
    }

    /// Always call Quarto when the board has a winner.
    fn quarto(&self, board: &Board) -> (r: bool)
        ensures
            r == has_winning_line(board@),
    {
        board.has_winner()
    }
}

} // verus!

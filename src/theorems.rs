//! Facts about the board engine as a whole, proved from the contracts of
//! `Board` and the codec.

use vstd::prelude::*;
use vstd::relations::injective_on;
use vstd::set_lib::{lemma_int_range, lemma_len_subset, lemma_map_size, lemma_subset_equality, set_int_range};
use crate::board::{
    all_occupied, attributes_of, available, can_place, empty_cells, has_winning_line, lemma_piece_byte,
    lemma_line_bits_four, line_agrees, line_bits_are, line_cell, line_complete, line_wins, occupied, piece_byte, well_formed,
};
use crate::printable::{bit_set, lemma_decode_byte, Piece};

verus! {

/// The four attributes of a piece are bits 7, 6, 5 and 4 of its byte, and bit 0 is set.
pub proof fn lemma_byte_bits(p: Piece)
    ensures
        bit_set(p.byte(), 0),
        bit_set(p.byte(), 7) == p.hole,
        bit_set(p.byte(), 6) == p.square,
        bit_set(p.byte(), 5) == p.high,
        bit_set(p.byte(), 4) == p.dark,
        occupied(p.byte()),
{
    lemma_decode_byte(p);
}

/// The empty board is not full, has no winner, and so the game is not over.
pub proof fn lemma_empty_board_not_over()
    ensures
        !all_occupied(empty_cells()),
        !has_winning_line(empty_cells()),
        !(has_winning_line(empty_cells()) || all_occupied(empty_cells())),
{
    let cells = empty_cells();
    lemma_piece_byte(0);
    assert(!occupied(cells[0]));
    assert forall|line: int| 0 <= line < 10 implies !#[trigger] line_wins(cells, line) by {
        assert(!occupied(cells[line_cell(line, 0)]));
    }
}

/// Once a piece is placed, placing it again fails at every index.
pub proof fn lemma_same_piece_twice(cells: Seq<u8>, piece: u8, first: u8, second: u8)
    requires
        cells.len() == 16,
        can_place(cells, piece, first),
    ensures
        !can_place(cells.update(first as int, piece_byte(piece)), piece, second),
{
    lemma_piece_byte(piece);
    let after = cells.update(first as int, piece_byte(piece));
    assert(occupied(after[first as int]) && attributes_of(after[first as int]) == piece);
}

/// No piece can be placed on a cell that already holds one.
pub proof fn lemma_occupied_cell_refuses(cells: Seq<u8>, piece: u8, index: u8)
    requires
        index < 16,
        occupied(cells[index as int]),
    ensures
        !can_place(cells, piece, index),
{
}

/// No piece can be placed at an index outside the board.
pub proof fn lemma_index_out_of_range_refuses(cells: Seq<u8>, piece: u8, index: u8)
    requires
        index >= 16,
    ensures
        !can_place(cells, piece, index),
{
}

/// The four pieces are all equal in one attribute.
pub open spec fn all_same(a: bool, b: bool, c: bool, d: bool) -> bool {
    a == b && b == c && c == d
}

/// The four cells of `line` hold the pieces `p0`..`p3`.
pub open spec fn line_holds(cells: Seq<u8>, line: int, p0: Piece, p1: Piece, p2: Piece, p3: Piece) -> bool {
    &&& cells[line_cell(line, 0)] == p0.byte()
    &&& cells[line_cell(line, 1)] == p1.byte()
    &&& cells[line_cell(line, 2)] == p2.byte()
    &&& cells[line_cell(line, 3)] == p3.byte()
}

/// A line that holds four pieces is complete, and agrees on bit 4 to 7 exactly when
/// the pieces are all equal in color, size, shape or fill.
proof fn lemma_line_of_pieces(cells: Seq<u8>, line: int, p0: Piece, p1: Piece, p2: Piece, p3: Piece)
    requires
        line_holds(cells, line, p0, p1, p2, p3),
    ensures
        line_complete(cells, line),
        line_agrees(cells, line, 7) == all_same(p0.hole, p1.hole, p2.hole, p3.hole),
        line_agrees(cells, line, 6) == all_same(p0.square, p1.square, p2.square, p3.square),
        line_agrees(cells, line, 5) == all_same(p0.high, p1.high, p2.high, p3.high),
        line_agrees(cells, line, 4) == all_same(p0.dark, p1.dark, p2.dark, p3.dark),
{
    lemma_byte_bits(p0);
    lemma_byte_bits(p1);
    lemma_byte_bits(p2);
    lemma_byte_bits(p3);
    assert forall|t: u8, v: bool| #[trigger] line_bits_are(cells, line, t, v) == (bit_set(
        cells[line_cell(line, 0)],
        t,
    ) == v && bit_set(cells[line_cell(line, 1)], t) == v && bit_set(cells[line_cell(line, 2)], t)
        == v && bit_set(cells[line_cell(line, 3)], t) == v) by {
        lemma_line_bits_four(cells, line, t, v);
    }
}

/// A line of four pieces that are all equal in no attribute does not win.
pub proof fn lemma_line_without_common_attribute(
    cells: Seq<u8>,
    line: int,
    p0: Piece,
    p1: Piece,
    p2: Piece,
    p3: Piece,
)
    requires
        line_holds(cells, line, p0, p1, p2, p3),
        !all_same(p0.hole, p1.hole, p2.hole, p3.hole),
        !all_same(p0.square, p1.square, p2.square, p3.square),
        !all_same(p0.high, p1.high, p2.high, p3.high),
        !all_same(p0.dark, p1.dark, p2.dark, p3.dark),
    ensures
        !line_wins(cells, line),
{
    lemma_line_of_pieces(cells, line, p0, p1, p2, p3);
    assert forall|t: u8| 4 <= t < 8 implies !#[trigger] line_agrees(cells, line, t) by {
        if t == 4 {
        } else if t == 5 {
        } else if t == 6 {
        } else {
        }
    }
}

/// Four pieces with a hole in the first row, the other cells empty: the first row
/// wins and no other line does.
pub proof fn lemma_first_row_shared_fill(cells: Seq<u8>, p0: Piece, p1: Piece, p2: Piece, p3: Piece)
    requires
        cells.len() == 16,
        line_holds(cells, 0, p0, p1, p2, p3),
        p0.hole && p1.hole && p2.hole && p3.hole,
        !all_same(p0.square, p1.square, p2.square, p3.square),
        !all_same(p0.high, p1.high, p2.high, p3.high),
        !all_same(p0.dark, p1.dark, p2.dark, p3.dark),
        forall|i: int| 4 <= i < 16 ==> #[trigger] cells[i] == 0,
    ensures
        line_wins(cells, 0),
        forall|line: int| 1 <= line < 10 ==> !#[trigger] line_wins(cells, line),
{
    lemma_line_of_pieces(cells, 0, p0, p1, p2, p3);
    assert(line_agrees(cells, 0, 7));
    lemma_piece_byte(0);
    assert forall|line: int| 1 <= line < 10 implies !#[trigger] line_wins(cells, line) by {
        assert(cells[line_cell(line, 1)] == 0);
    }
}

/// Four dark pieces on the diagonal 0, 5, 10, 15, the other cells empty: that
/// diagonal wins and no other line does.
pub proof fn lemma_diagonal_shared_color(cells: Seq<u8>, p0: Piece, p1: Piece, p2: Piece, p3: Piece)
    requires
        cells.len() == 16,
        line_holds(cells, 8, p0, p1, p2, p3),
        p0.dark && p1.dark && p2.dark && p3.dark,
        !all_same(p0.hole, p1.hole, p2.hole, p3.hole),
        !all_same(p0.square, p1.square, p2.square, p3.square),
        !all_same(p0.high, p1.high, p2.high, p3.high),
        forall|i: int| 0 <= i < 16 && i != 0 && i != 5 && i != 10 && i != 15 ==> #[trigger] cells[i] == 0,
    ensures
        line_wins(cells, 8),
        forall|line: int| 0 <= line < 10 && line != 8 ==> !#[trigger] line_wins(cells, line),
{
    lemma_line_of_pieces(cells, 8, p0, p1, p2, p3);
    assert(line_agrees(cells, 8, 4));
    lemma_piece_byte(0);
    assert forall|line: int| 0 <= line < 10 && line != 8 implies !#[trigger] line_wins(cells, line) by {
        if line < 4 {
            assert(cells[line_cell(line, (line + 1) % 4)] == 0);
        } else if line < 8 {
            assert(cells[line_cell(line, (line - 3) % 4)] == 0);
        } else {
            assert(cells[line_cell(line, 0)] == 0);
        }
    }
}

/// The cells after the first `k` of `pieces` are placed on cells `0..k` of an empty board.
pub open spec fn filled(pieces: Seq<u8>, k: int) -> Seq<u8> {
    Seq::new(16, |i: int| if i < k { piece_byte(pieces[i]) } else { 0 })
}

/// Placing sixteen distinct pieces, one on each cell, is legal at every step,
/// and the board ends full whatever the lines hold.
pub proof fn lemma_fill_board(pieces: Seq<u8>)
    requires
        pieces.len() == 16,
        forall|i: int| 0 <= i < 16 ==> #[trigger] pieces[i] < 16,
        forall|i: int, j: int| 0 <= i < j < 16 ==> #[trigger] pieces[i] != #[trigger] pieces[j],
    ensures
        forall|i: int| 0 <= i < 16 ==> #[trigger] filled(pieces, 0)[i] == 0,
        forall|k: int|
            0 <= k < 16 ==> can_place(#[trigger] filled(pieces, k), pieces[k], k as u8) && filled(
                pieces,
                k,
            ).update(k, piece_byte(pieces[k])) == filled(pieces, k + 1),
        all_occupied(filled(pieces, 16)),
{
    lemma_piece_byte(0);
    assert forall|n: u8| n < 16 implies occupied(#[trigger] piece_byte(n)) && attributes_of(
        piece_byte(n),
    ) == n by {
        lemma_piece_byte(n);
    }
    assert forall|k: int|
        0 <= k < 16 implies can_place(#[trigger] filled(pieces, k), pieces[k], k as u8) && filled(
        pieces,
        k,
    ).update(k, piece_byte(pieces[k])) == filled(pieces, k + 1) by {
        let cells = filled(pieces, k);
        assert forall|i: int| 0 <= i < 16 implies !(occupied(#[trigger] cells[i]) && attributes_of(
            cells[i],
        ) == pieces[k]) by {
            if i < k {
                assert(pieces[i] != pieces[k]);
            }
        }
        assert(cells.update(k, piece_byte(pieces[k])) =~= filled(pieces, k + 1));
    }
}

/// On a board built by legal placements that is not full, some piece is still
/// available: each placed piece fills its own cell.
pub proof fn lemma_piece_left(cells: Seq<u8>)
    requires
        well_formed(cells),
        !all_occupied(cells),
    ensures
        exists|n: u8| n < 16 && #[trigger] available(cells, n),
{
    if forall|n: u8| n < 16 ==> !#[trigger] available(cells, n) {
        let all = set_int_range(0, 16);
        let taken = Set::new(|i: int| 0 <= i < 16 && occupied(cells[i]));
        let ordinal = |i: int| attributes_of(cells[i]) as int;
        let used = taken.map(ordinal);
        lemma_int_range(0, 16);
        assert(taken.subset_of(all));
        lemma_len_subset(taken, all);
        assert(injective_on(ordinal, taken)) by {
            assert forall|a: int, b: int|
                taken.contains(a) && taken.contains(b) && #[trigger] ordinal(a) == #[trigger] ordinal(b)
                implies a == b by {
                if a != b {
                    assert(occupied(cells[a]) && occupied(cells[b]));
                }
            }
        }
        lemma_map_size(taken, used, ordinal);
        assert(all.subset_of(used)) by {
            assert forall|n: int| all.contains(n) implies used.contains(n) by {
                assert(!available(cells, n as u8));
                let i = choose|i: int|
                    0 <= i < 16 && occupied(#[trigger] cells[i]) && attributes_of(cells[i]) == n as u8;
                assert(taken.contains(i));
                assert(ordinal(i) == n);
            }
        }
        lemma_len_subset(all, used);
        lemma_subset_equality(taken, all);
        assert forall|i: int| 0 <= i < 16 implies occupied(#[trigger] cells[i]) by {
            assert(all.contains(i));
        }
    }
}

} // verus!

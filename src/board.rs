//! The board engine: sixteen cells packed into one `u128`, placement with its
//! legality checks, and line, win and draw detection on bit masks.

use vstd::prelude::*;
use crate::packing::{
    byte_at, lemma_attribute_nibble, lemma_board_mask, lemma_bytes_determine,
    lemma_column_mask, lemma_diagonal_masks, lemma_existence_bit, lemma_row_mask, lemma_write_byte,
    lemma_zero_bytes, BOARD_MASK, COLUMN, DIAG_DOWN, DIAG_UP, ROW,
};
use crate::printable::{
    bit_set, decode_cells, encode_cells, lemma_decode_piece_byte, lemma_number_injective,
    pieces_distinct, slot_byte, PrintableBoard,
};

verus! {

/// The bit size of a single cell.
pub const PIECE_SIZE: u8 = 8;

/// The byte of cell `i` (row-major, `0..16`) in the packed word `x`: cell 0 is the
/// most significant byte.
pub open spec fn cell_of(x: u128, i: int) -> u8 {
    byte_at(x, (15 - i) as u8)
}

/// The sixteen cell bytes of the packed word `x`, in cell order.
pub open spec fn cells_of(x: u128) -> Seq<u8> {
    Seq::new(16, |i: int| cell_of(x, i))
}

/// The cells of the empty board.
pub open spec fn empty_cells() -> Seq<u8> {
    Seq::new(16, |i: int| 0u8)
}

/// A cell byte holds a piece when its existence bit (bit 0) is set.
pub open spec fn occupied(b: u8) -> bool {
    bit_set(b, 0)
}

/// The ordinal of the piece in a cell byte: its bits 4 to 7.
pub open spec fn attributes_of(b: u8) -> u8 {
    b >> 4u8
}

/// The cell byte that holds the piece with ordinal `n`.
pub open spec fn piece_byte(n: u8) -> u8 {
    (n * 16 + 1) as u8
}

/// No occupied cell holds the piece with ordinal `piece`.
pub open spec fn available(cells: Seq<u8>, piece: u8) -> bool {
    forall|i: int| 0 <= i < 16 ==> !(occupied(#[trigger] cells[i]) && attributes_of(cells[i]) == piece)
}

/// Placing the piece with ordinal `piece` at `index` is legal.
pub open spec fn can_place(cells: Seq<u8>, piece: u8, index: u8) -> bool {
    &&& index < 16
    &&& piece < 16
    &&& !occupied(cells[index as int])
    &&& available(cells, piece)
}

/// Cell `k` (`0..4`) of line `line`: rows `0..4`, then columns `4..8`, then the
/// diagonal 0, 5, 10, 15 as line 8 and the diagonal 3, 6, 9, 12 as line 9.
pub open spec fn line_cell(line: int, k: int) -> int {
    if line < 4 {
        4 * line + k
    } else if line < 8 {
        (line - 4) + 4 * k
    } else if line == 8 {
        5 * k
    } else {
        3 + 3 * k
    }
}

/// Bit `t` of each of the four cells of `line` is `v`.
pub open spec fn line_bits_are(cells: Seq<u8>, line: int, t: u8, v: bool) -> bool {
    forall|k: int| 0 <= k < 4 ==> bit_set(#[trigger] cells[line_cell(line, k)], t) == v
}

/// All four cells of `line` hold a piece.
pub open spec fn line_complete(cells: Seq<u8>, line: int) -> bool {
    line_bits_are(cells, line, 0, true)
}

/// The four cells of `line` agree on bit `t`: all set or all clear.
pub open spec fn line_agrees(cells: Seq<u8>, line: int, t: u8) -> bool {
    line_bits_are(cells, line, t, true) || line_bits_are(cells, line, t, false)
}

/// `line` is complete and its four pieces agree on one of the attribute bits 4 to 7.
pub open spec fn line_wins(cells: Seq<u8>, line: int) -> bool {
    line_complete(cells, line) && exists|t: u8| 4 <= t < 8 && #[trigger] line_agrees(cells, line, t)
}

/// One of the ten lines wins.
pub open spec fn has_winning_line(cells: Seq<u8>) -> bool {
    exists|line: int| 0 <= line < 10 && #[trigger] line_wins(cells, line)
}

/// Every cell holds a piece.
pub open spec fn all_occupied(cells: Seq<u8>) -> bool {
    forall|i: int| 0 <= i < 16 ==> occupied(#[trigger] cells[i])
}

/// The cells of a board built by legal placements: each cell is zero or the byte
/// of a piece, and no piece stands twice.
pub open spec fn well_formed(cells: Seq<u8>) -> bool {
    &&& cells.len() == 16
    &&& forall|i: int|
        0 <= i < 16 ==> #[trigger] cells[i] == 0 || (attributes_of(cells[i]) < 16 && cells[i]
            == piece_byte(attributes_of(cells[i])))
    &&& forall|i: int, j: int|
        0 <= i < 16 && 0 <= j < 16 && i != j && occupied(#[trigger] cells[i]) && occupied(
            #[trigger] cells[j],
        ) ==> attributes_of(cells[i]) != attributes_of(cells[j])
}

/// A line's bits, spelled out over its four cells.
pub proof fn lemma_line_bits_four(cells: Seq<u8>, line: int, t: u8, v: bool)
    ensures
        line_bits_are(cells, line, t, v) == (bit_set(cells[line_cell(line, 0)], t) == v && bit_set(
            cells[line_cell(line, 1)],
            t,
        ) == v && bit_set(cells[line_cell(line, 2)], t) == v && bit_set(
            cells[line_cell(line, 3)],
            t,
        ) == v),
{
    if bit_set(cells[line_cell(line, 0)], t) == v && bit_set(cells[line_cell(line, 1)], t) == v
        && bit_set(cells[line_cell(line, 2)], t) == v && bit_set(cells[line_cell(line, 3)], t)
        == v {
        assert forall|k: int| 0 <= k < 4 implies bit_set(#[trigger] cells[line_cell(line, k)], t)
            == v by {
            if k == 0 {
            } else if k == 1 {
            } else if k == 2 {
            } else {
            }
        }
    }
}

/// The row mask at bit `t` tests bit `t` of the four cells of row `row`.
proof fn lemma_row_bits(x: u128, row: u8, t: u8)
    requires
        row < 4,
        t < 8,
    ensures
        (x & (ROW << (32 * (3 - row) + t) as u8) == ROW << (32 * (3 - row) + t) as u8)
            == line_bits_are(cells_of(x), row as int, t, true),
        (x & (ROW << (32 * (3 - row) + t) as u8) == 0) == line_bits_are(
            cells_of(x),
            row as int,
            t,
            false,
        ),
{
    let q = (3 - row) as u8;
    lemma_row_mask(x, q, t);
    lemma_line_bits_four(cells_of(x), row as int, t, true);
    lemma_line_bits_four(cells_of(x), row as int, t, false);
    assert(cells_of(x)[line_cell(row as int, 0)] == byte_at(x, (4 * q + 3) as u8));
    assert(cells_of(x)[line_cell(row as int, 1)] == byte_at(x, (4 * q + 2) as u8));
    assert(cells_of(x)[line_cell(row as int, 2)] == byte_at(x, (4 * q + 1) as u8));
    assert(cells_of(x)[line_cell(row as int, 3)] == byte_at(x, (4 * q) as u8));
}

/// The column mask at bit `t` tests bit `t` of the four cells of column `column`.
proof fn lemma_column_bits(x: u128, column: u8, t: u8)
    requires
        column < 4,
        t < 8,
    ensures
        (x & (COLUMN << (8 * (3 - column) + t) as u8) == COLUMN << (8 * (3 - column) + t) as u8)
            == line_bits_are(cells_of(x), 4 + column, t, true),
        (x & (COLUMN << (8 * (3 - column) + t) as u8) == 0) == line_bits_are(
            cells_of(x),
            4 + column,
            t,
            false,
        ),
{
    let q = (3 - column) as u8;
    let line = 4 + column;
    lemma_column_mask(x, q, t);
    lemma_line_bits_four(cells_of(x), line, t, true);
    lemma_line_bits_four(cells_of(x), line, t, false);
    assert(cells_of(x)[line_cell(line, 0)] == byte_at(x, (q + 12) as u8));
    assert(cells_of(x)[line_cell(line, 1)] == byte_at(x, (q + 8) as u8));
    assert(cells_of(x)[line_cell(line, 2)] == byte_at(x, (q + 4) as u8));
    assert(cells_of(x)[line_cell(line, 3)] == byte_at(x, q));
}

/// The diagonal masks at bit `t` test bit `t` of the cells of lines 8 and 9.
proof fn lemma_diagonal_bits(x: u128, t: u8)
    requires
        t < 8,
    ensures
        (x & (DIAG_DOWN << t) == DIAG_DOWN << t) == line_bits_are(cells_of(x), 8, t, true),
        (x & (DIAG_DOWN << t) == 0) == line_bits_are(cells_of(x), 8, t, false),
        (x & (DIAG_UP << t) == DIAG_UP << t) == line_bits_are(cells_of(x), 9, t, true),
        (x & (DIAG_UP << t) == 0) == line_bits_are(cells_of(x), 9, t, false),
{
    lemma_diagonal_masks(x, t);
    lemma_line_bits_four(cells_of(x), 8, t, true);
    lemma_line_bits_four(cells_of(x), 8, t, false);
    lemma_line_bits_four(cells_of(x), 9, t, true);
    lemma_line_bits_four(cells_of(x), 9, t, false);
    assert(cells_of(x)[line_cell(8, 0)] == byte_at(x, 15));
    assert(cells_of(x)[line_cell(8, 1)] == byte_at(x, 10));
    assert(cells_of(x)[line_cell(8, 2)] == byte_at(x, 5));
    assert(cells_of(x)[line_cell(8, 3)] == byte_at(x, 0));
    assert(cells_of(x)[line_cell(9, 0)] == byte_at(x, 12));
    assert(cells_of(x)[line_cell(9, 1)] == byte_at(x, 9));
    assert(cells_of(x)[line_cell(9, 2)] == byte_at(x, 6));
    assert(cells_of(x)[line_cell(9, 3)] == byte_at(x, 3));
}

/// The board mask test reads the existence bit of every cell.
proof fn lemma_full_bits(x: u128)
    ensures
        (x & BOARD_MASK == BOARD_MASK) == all_occupied(cells_of(x)),
{
    let c = cells_of(x);
    lemma_board_mask(x);
    assert(c[0] == byte_at(x, 15) && c[1] == byte_at(x, 14) && c[2] == byte_at(x, 13) && c[3]
        == byte_at(x, 12) && c[4] == byte_at(x, 11) && c[5] == byte_at(x, 10) && c[6] == byte_at(
        x,
        9,
    ) && c[7] == byte_at(x, 8) && c[8] == byte_at(x, 7) && c[9] == byte_at(x, 6) && c[10]
        == byte_at(x, 5) && c[11] == byte_at(x, 4) && c[12] == byte_at(x, 3) && c[13] == byte_at(
        x,
        2,
    ) && c[14] == byte_at(x, 1) && c[15] == byte_at(x, 0));
    if all_occupied(c) {
        assert(occupied(c[0]) && occupied(c[1]) && occupied(c[2]) && occupied(c[3]) && occupied(
            c[4],
        ) && occupied(c[5]) && occupied(c[6]) && occupied(c[7]) && occupied(c[8]) && occupied(c[9])
            && occupied(c[10]) && occupied(c[11]) && occupied(c[12]) && occupied(c[13])
            && occupied(c[14]) && occupied(c[15]));
    }
    if x & BOARD_MASK == BOARD_MASK {
        assert forall|i: int| 0 <= i < 16 implies occupied(#[trigger] c[i]) by {
            if i < 4 {
                if i == 0 {
                } else if i == 1 {
                } else if i == 2 {
                } else {
                }
            } else if i < 8 {
                if i == 4 {
                } else if i == 5 {
                } else if i == 6 {
                } else {
                }
            } else if i < 12 {
                if i == 8 {
                } else if i == 9 {
                } else if i == 10 {
                } else {
                }
            } else {
                if i == 12 {
                } else if i == 13 {
                } else if i == 14 {
                } else {
                }
            }
        }
    }
}

/// The byte of a piece ordinal is occupied and holds that ordinal; an empty byte is not.
pub proof fn lemma_piece_byte(n: u8)
    requires
        n < 16,
    ensures
        occupied(piece_byte(n)),
        attributes_of(piece_byte(n)) == n,
        !occupied(0),
{
    assert(n < 16 ==> bit_set(((n * 16 + 1) as u8), 0) && ((n * 16 + 1) as u8) >> 4u8 == n && !bit_set(0, 0))
        by (bit_vector);
}

/// The number of empty cells among the first `n`.
pub open spec fn empty_count(cells: Seq<u8>, n: int) -> nat
    decreases n,
{
    if n <= 0 {
        0
    } else {
        empty_count(cells, n - 1) + if occupied(cells[n - 1]) {
            0nat
        } else {
            1nat
        }
    }
}

/// Filling an empty cell leaves one empty cell fewer.
pub proof fn lemma_fill_cell_count(cells: Seq<u8>, i: int, b: u8, n: int)
    requires
        0 <= i < cells.len(),
        0 <= n <= cells.len(),
        !occupied(cells[i]),
        occupied(b),
    ensures
        empty_count(cells.update(i, b), n) + (if i < n {
            1int
        } else {
            0int
        }) == empty_count(cells, n),
    decreases n,
{
    if n > 0 {
        lemma_fill_cell_count(cells, i, b, n - 1);
    }
}

/// A Quarto board stored as a `u128`: each cell is one byte whose top four bits
/// hold the piece's attributes and whose lowest bit marks that a piece is there.
#[derive(Debug, PartialEq, Eq, Structural, Copy, Clone)]
pub struct Board {
    items: u128,
}

impl View for Board {
    type V = Seq<u8>;

    /// The sixteen cell bytes, in cell order.
    open spec fn view(&self) -> Seq<u8> {
        cells_of(self.bits())
    }
}

impl Board {
    /// The packed word.
    pub closed spec fn bits(self) -> u128 {
        self.items
    }

    /// Create a new empty board.
    pub fn new() -> (r: Self)
        ensures
            r.bits() == 0,
            r@ == empty_cells(),
            well_formed(r@),
    {
        let r = Board { items: 0 };
        proof {
            lemma_zero_bytes(0);
            assert forall|i: int| 0 <= i < 16 implies #[trigger] r@[i] == 0 by {
                lemma_zero_bytes((15 - i) as u8);
            }
            assert(r@ =~= empty_cells());
        }
        r
    }

    /// Create a `Board` from a packed word, taken as it is.
    pub fn from_u128(items: u128) -> (r: Self)
        ensures
            r.bits() == items,
    {
        Board { items }
    }

    /// The packed word of the board.
    pub fn items(&self) -> (r: u128)
        ensures
            r == self.bits(),
    {
        self.items
    }

    /// Whether cell `index` is empty; `false` for an index outside the board.
    pub fn is_empty(&self, index: u8) -> (r: bool)
        ensures
            r == (index < 16 && !occupied(self@[index as int])),
    {
        if index > 15 {
            return false;
        }
        proof {
            lemma_existence_bit(self.items, (15 - index) as u8);
        }
        let pos_mask: u128 = 1u128 << ((15 - index) * PIECE_SIZE);
        self.items & pos_mask == 0
    }

    /// Whether row `row` (`0..4`) is full; `false` for any other `row`.
    pub fn row(&self, row: u8) -> (r: bool)
        ensures
            r == (row < 4 && line_complete(self@, row as int)),
    {
        if row > 3 {
            return false;
        }
        proof {
            lemma_row_bits(self.items, row, 0);
        }
        let row_mask = ROW << (4 * PIECE_SIZE * (3 - row));
        self.items & row_mask == row_mask
    }

    /// Whether column `column` (`0..4`) is full; `false` for any other `column`.
    pub fn column(&self, column: u8) -> (r: bool)
        ensures
            r == (column < 4 && line_complete(self@, 4 + column)),
    {
        if column > 3 {
            return false;
        }
        proof {
            lemma_column_bits(self.items, column, 0);
        }
        let col_mask = COLUMN << (PIECE_SIZE * (3 - column));
        self.items & col_mask == col_mask
    }

    /// Whether row `row` is full and its four pieces share an attribute.
    pub fn winning_row(&self, row: u8) -> (r: bool)
        ensures
            r == (row < 4 && line_wins(self@, row as int)),
    {
        if !self.row(row) {
            return false;
        }
        let mut t: u8 = 4;
        while t < 8
            invariant
                4 <= t <= 8,
                row < 4,
                line_complete(self@, row as int),
                forall|s: u8| 4 <= s < t ==> !#[trigger] line_agrees(self@, row as int, s),
            decreases 8 - t,
        {
            proof {
                lemma_row_bits(self.items, row, t);
            }
            let row_mask = ROW << (4 * PIECE_SIZE * (3 - row) + t);
            if self.items & row_mask == row_mask || self.items & row_mask == 0 {
                assert(line_agrees(self@, row as int, t));
                return true;
            }
            t += 1;
        }
        false
    }

    /// Whether column `column` is full and its four pieces share an attribute.
    pub fn winning_column(&self, column: u8) -> (r: bool)
        ensures
            r == (column < 4 && line_wins(self@, 4 + column)),
    {
        if !self.column(column) {
            return false;
        }
        let mut t: u8 = 4;
        while t < 8
            invariant
                4 <= t <= 8,
                column < 4,
                line_complete(self@, 4 + column),
                forall|s: u8| 4 <= s < t ==> !#[trigger] line_agrees(self@, 4 + column, s),
            decreases 8 - t,
        {
            proof {
                lemma_column_bits(self.items, column, t);
            }
            let col_mask = COLUMN << (PIECE_SIZE * (3 - column) + t);
            if self.items & col_mask == col_mask || self.items & col_mask == 0 {
                assert(line_agrees(self@, 4 + column, t));
                return true;
            }
            t += 1;
        }
        false
    }

    /// Whether one of the two diagonals is full and its four pieces share an attribute.
    pub fn winning_diagonal(&self) -> (r: bool)
        ensures
            r == (line_wins(self@, 8) || line_wins(self@, 9)),
    {
        proof {
            lemma_diagonal_bits(self.items, 0);
            assert(DIAG_UP << 0u8 == DIAG_UP && DIAG_DOWN << 0u8 == DIAG_DOWN) by (bit_vector);
        }
        let mut t: u8 = 4;
        while t < 8
            invariant
                4 <= t <= 8,
                (self.items & DIAG_UP == DIAG_UP) == line_complete(self@, 9),
                (self.items & DIAG_DOWN == DIAG_DOWN) == line_complete(self@, 8),
                forall|s: u8|
                    4 <= s < t ==> !(line_complete(self@, 8) && #[trigger] line_agrees(self@, 8, s)),
                forall|s: u8|
                    4 <= s < t ==> !(line_complete(self@, 9) && #[trigger] line_agrees(self@, 9, s)),
            decreases 8 - t,
        {
            proof {
                lemma_diagonal_bits(self.items, t);
            }
            let diag_up_mask = DIAG_UP << t;
            let diag_down_mask = DIAG_DOWN << t;
            let up_and = self.items & diag_up_mask;
            let down_and = self.items & diag_down_mask;
            if self.items & DIAG_UP == DIAG_UP && (up_and == diag_up_mask || up_and == 0) {
                assert(line_agrees(self@, 9, t));
                return true;
            }
            if self.items & DIAG_DOWN == DIAG_DOWN && (down_and == diag_down_mask || down_and == 0) {
                assert(line_agrees(self@, 8, t));
                return true;
            }
            t += 1;
        }
        false
    }

    /// Whether a row, column or diagonal is full of pieces that share an attribute.
    pub fn has_winner(&self) -> (r: bool)
        ensures
            r == has_winning_line(self@),
    {
        // Rows and columns first, then the diagonals.
        let mut i: u8 = 0;
        while i < 4
            invariant
                i <= 4,
                forall|l: int| 0 <= l < i ==> !#[trigger] line_wins(self@, l),
                forall|l: int| 4 <= l < 4 + i ==> !#[trigger] line_wins(self@, l),
            decreases 4 - i,
        {
            if self.winning_row(i) || self.winning_column(i) {
                return true;
            }
            i += 1;
        }
        self.winning_diagonal()
    }

    /// Whether every cell holds a piece.
    pub fn board_full(&self) -> (r: bool)
        ensures
            r == all_occupied(self@),
    {
        proof {
            lemma_full_bits(self.items);
        }
        self.items & BOARD_MASK == BOARD_MASK
    }

    /// Whether the game is over: some line wins, or the board is full.
    pub fn game_over(&self) -> (r: bool)
        ensures
            r == (has_winning_line(self@) || all_occupied(self@)),
    {
        self.has_winner() || self.board_full()
    }

    /// Put the piece with ordinal `piece` (`0..16`) on cell `index` (`0..16`).
    /// Returns whether it was placed; the board is unchanged when it was not: the
    /// index or ordinal is out of range, the cell is taken, or the piece is on the board.
    pub fn put_piece(&mut self, piece: u8, index: u8) -> (r: bool)
        ensures
            r == can_place(old(self)@, piece, index),
            r ==> final(self)@ == old(self)@.update(index as int, piece_byte(piece)),
            !r ==> *final(self) == *old(self),
            well_formed(old(self)@) ==> well_formed(final(self)@),
    {
        // Cannot put a nonexisting piece on the board, or with an invalid index.
        if index > 15 || !self.valid_piece(piece) {
            return false;
        }
        let bit_index = 15 - index;
        proof {
            lemma_existence_bit(self.items, bit_index);
        }
        // Cannot put a piece in an existing place.
        if self.items & (1u128 << (PIECE_SIZE * bit_index)) != 0 {
            return false;
        }
        let ghost old_items = self.items;
        let shift = PIECE_SIZE * bit_index;
        let byte: u8 = piece * 16 + 1;
        // Clear the whole cell, then write the existence bit and the piece's attributes.
        self.items = (self.items & !(0xffu128 << shift)) | ((byte as u128) << shift);
        proof {
            let old_cells = cells_of(old_items);
            let new_cells = cells_of(self.items);
            assert forall|i: int| 0 <= i < 16 implies #[trigger] new_cells[i] == old_cells.update(
                index as int,
                piece_byte(piece),
            )[i] by {
                lemma_write_byte(old_items, bit_index, byte, (15 - i) as u8);
            }
            assert(new_cells =~= old_cells.update(index as int, piece_byte(piece)));
            lemma_piece_byte(piece);
        }
        true
    }

    /// Whether the piece with ordinal `piece` can still be placed: it is in `0..16`
    /// and no cell holds it. Only the attribute bits of a cell are compared.
    pub fn valid_piece(&self, piece: u8) -> (r: bool)
        ensures
            r == (piece < 16 && available(self@, piece)),
    {
        // Pieces larger than 15 do not exist.
        if piece > 15 {
            return false;
        }
        let mut p: u8 = 0;
        while p < 16
            invariant
                p <= 16,
                piece < 16,
                forall|j: u8|
                    j < p ==> !(occupied(#[trigger] byte_at(self.items, j)) && attributes_of(
                        byte_at(self.items, j),
                    ) == piece),
            decreases 16 - p,
        {
            proof {
                lemma_existence_bit(self.items, p);
                lemma_attribute_nibble(self.items, p);
            }
            if self.items & (1u128 << (PIECE_SIZE * p)) != 0 && (self.items >> (PIECE_SIZE * p + 4))
                & 0xf == piece as u128 {
                assert(self@[15 - p] == byte_at(self.items, p));
                return false;
            }
            p += 1;
        }
        true
    }

    /// The ordinals of the pieces that can still be placed, in increasing order.
    pub fn valid_pieces(&self) -> (r: Vec<u8>)
        ensures
            forall|n: u8| #[trigger] r@.contains(n) <==> n < 16 && available(self@, n),
            forall|a: int, b: int| 0 <= a < b < r@.len() ==> r@[a] < r@[b],
    {
        let mut res: Vec<u8> = Vec::new();
        let mut n: u8 = 0;
        while n < 16
            invariant
                n <= 16,
                forall|m: u8| #[trigger] res@.contains(m) <==> m < n && available(self@, m),
                forall|a: int, b: int| 0 <= a < b < res@.len() ==> res@[a] < res@[b],
                forall|a: int| 0 <= a < res@.len() ==> res@[a] < n,
            decreases 16 - n,
        {
            if self.valid_piece(n) {
                let ghost before = res@;
                res.push(n);
                proof {
                    assert forall|m: u8| #[trigger] res@.contains(m) <==> m < n + 1 && available(self@, m) by {
                        if m == n {
                            assert(res@[res@.len() - 1] == m);
                        }
                        if res@.contains(m) && m != n {
                            let k = choose|k: int| 0 <= k < res@.len() && res@[k] == m;
                            assert(k < res@.len() - 1);
                            assert(before.contains(m)) by {
                                assert(before[k] == m);
                            }
                        }
                        if m < n && available(self@, m) {
                            assert(before.contains(m));
                            let k = choose|k: int| 0 <= k < before.len() && before[k] == m;
                            assert(res@[k] == m);
                        }
                    }
                }
            }
            n += 1;
        }
        res
    }

    /// The indices of the empty cells, in increasing order.
    pub fn empty_spaces(&self) -> (r: Vec<u8>)
        ensures
            forall|n: u8| #[trigger] r@.contains(n) <==> n < 16 && !occupied(self@[n as int]),
            forall|a: int, b: int| 0 <= a < b < r@.len() ==> r@[a] < r@[b],
    {
        let mut res: Vec<u8> = Vec::new();
        let mut n: u8 = 0;
        while n < 16
            invariant
                n <= 16,
                forall|m: u8| #[trigger] res@.contains(m) <==> m < n && !occupied(self@[m as int]),
                forall|a: int, b: int| 0 <= a < b < res@.len() ==> res@[a] < res@[b],
                forall|a: int| 0 <= a < res@.len() ==> res@[a] < n,
            decreases 16 - n,
        {
            if self.is_empty(n) {
                let ghost before = res@;
                res.push(n);
                proof {
                    assert forall|m: u8| #[trigger] res@.contains(m) <==> m < n + 1 && !occupied(self@[m as int]) by {
                        if m == n {
                            assert(res@[res@.len() - 1] == m);
                        }
                        if res@.contains(m) && m != n {
                            let k = choose|k: int| 0 <= k < res@.len() && res@[k] == m;
                            assert(k < res@.len() - 1);
                            assert(before.contains(m)) by {
                                assert(before[k] == m);
                            }
                        }
                        if m < n && !occupied(self@[m as int]) {
                            assert(before.contains(m));
                            let k = choose|k: int| 0 <= k < before.len() && before[k] == m;
                            assert(res@[k] == m);
                        }
                    }
                }
            }
            n += 1;
        }
        res
    }

    /// Build a `Board` from a `PrintableBoard` by placing each piece at its index.
    /// Fails when the list does not hold sixteen entries or holds a piece twice.
    pub fn from_printable(pboard: &PrintableBoard) -> (r: Result<Self, &'static str>)
        ensures
            r is Ok <==> pboard@.len() == 16 && pieces_distinct(pboard@),
            r matches Ok(b) ==> b@ == encode_cells(pboard@),
    {
        let pboard_items = pboard.items();
        if pboard_items.len() != 16 {
            return Err("The PrintableBoard does not contain 16 elements!");
        }
        let mut board: Board = Board::new();
        let mut i: usize = 0;
        while i < 16
            invariant
                pboard_items@ == pboard@,
                pboard@.len() == 16,
                i <= 16,
                forall|j: int|
                    0 <= j < 16 ==> #[trigger] board@[j] == if j < i {
                        slot_byte(pboard@[j])
                    } else {
                        0
                    },
                pieces_distinct(pboard@.subrange(0, i as int)),
            decreases 16 - i,
        {
            let ghost cells = board@;
            let ghost items = pboard@;
            proof {
                lemma_piece_byte(0);
            }
            match &pboard_items[i] {
                // Place the pieces through `put_piece`, so that a duplicate is an error.
                Some(piece) => {
                    let n = piece.to_number();
                    if !board.put_piece(n, i as u8) {
                        proof {
                            let c = choose|c: int|
                                0 <= c < 16 && #[trigger] occupied(cells[c]) && attributes_of(cells[c]) == n;
                            assert(c < i);
                            let q = items[c]->Some_0;
                            lemma_piece_byte(q.number());
                            lemma_number_injective(q, *piece);
                            assert(items[c] == items[i as int]);
                        }
                        return Err("Unable to put item on board! Perhaps it already exists?");
                    }
                    proof {
                        lemma_piece_byte(n);
                        assert forall|c: int| 0 <= c < i && #[trigger] items[c] is Some implies items[c] != items[i as int] by {
                            let q = items[c]->Some_0;
                            lemma_piece_byte(q.number());
                            assert(occupied(cells[c]) && attributes_of(cells[c]) == q.number());
                        }
                    }
                },
                None => {},
            }
            proof {
                let prefix = items.subrange(0, i + 1);
                assert forall|a: int, b: int|
                    0 <= a < b < prefix.len() && #[trigger] prefix[a] is Some implies prefix[a] != #[trigger] prefix[b] by {
                    if b < i {
                        assert(items.subrange(0, i as int)[a] == prefix[a]);
                        assert(items.subrange(0, i as int)[b] == prefix[b]);
                    }
                }
            }
            i += 1;
        }
        assert(board@ =~= encode_cells(pboard@));
        assert(pboard@.subrange(0, 16) =~= pboard@);
        Ok(board)
    }
}

/// A board built by legal placements comes back unchanged from its list view: the
/// list holds no piece twice, encoding it gives the same cells, and a board with
/// those cells is this board.
pub proof fn lemma_round_trip(b: Board)
    requires
        well_formed(b@),
    ensures
        pieces_distinct(decode_cells(b@)),
        encode_cells(decode_cells(b@)) == b@,
        forall|c: Board| c@ == b@ ==> c == b,
{
    let cells = b@;
    let slots = decode_cells(cells);
    lemma_piece_byte(0);
    assert forall|i: int| 0 <= i < 16 implies #[trigger] encode_cells(slots)[i] == cells[i] && (
    slots[i] is Some <==> occupied(cells[i])) && (slots[i] matches Some(p) ==> p.number()
        == attributes_of(cells[i])) by {
        if cells[i] != 0 {
            lemma_decode_piece_byte(attributes_of(cells[i]));
        }
    }
    assert(encode_cells(slots) =~= cells);
    assert forall|a: int, c: int|
        0 <= a < c < slots.len() && #[trigger] slots[a] is Some implies slots[a] != #[trigger] slots[c] by {
        assert(encode_cells(slots)[a] == cells[a]);
        assert(encode_cells(slots)[c] == cells[c]);
    }
    assert forall|c: Board| c@ == b@ implies c == b by {
        assert forall|j: u8| j < 16 implies byte_at(c.items, j) == byte_at(b.items, j) by {
            assert(c@[15 - j] == b@[15 - j]);
        }
        lemma_bytes_determine(c.items, b.items);
    }
}

} // verus!

//! The packed layout of a board: sixteen cell bytes in one `u128`, and the
//! facts that tie the masks used by the board to the bytes of its cells.

use vstd::prelude::*;
use crate::printable::bit_set;

verus! {

/// Bits set at the existence bit of the four cells of the lowest row.
pub const ROW: u128 = 0x0101_0101;

/// Bits set at the existence bit of the four cells of the right-most column.
pub const COLUMN: u128 = 0x0000_0001_0000_0001_0000_0001_0000_0001;

/// Bits set at the existence bit of every cell.
pub const BOARD_MASK: u128 = 0x0101_0101_0101_0101_0101_0101_0101_0101;

/// Bits set at the existence bit of cells 0, 5, 10 and 15.
pub const DIAG_DOWN: u128 = 0x0100_0000_0001_0000_0000_0100_0000_0001;

/// Bits set at the existence bit of cells 3, 6, 9 and 12.
pub const DIAG_UP: u128 = 0x0000_0001_0000_0100_0001_0000_0100_0000;

/// Byte number `j` of `x`, counted from the least significant end.
pub open spec fn byte_at(x: u128, j: u8) -> u8 {
    ((x >> (8 * j) as u8) & 0xff) as u8
}

/// The test of a single existence bit reads the occupancy of that byte.
pub proof fn lemma_existence_bit(x: u128, j: u8)
    requires
        j < 16,
    ensures
        (x & (1u128 << (8 * j) as u8) == 0) == !bit_set(byte_at(x, j), 0),
{
    assert((x & (1u128 << (8 * j) as u8) == 0) == !bit_set(byte_at(x, j), 0)) by (bit_vector)
        requires
            j < 16,
    ;
}

/// Bit `t` is set in each of the four bytes `j0`..`j3` of `x`.
pub open spec fn four_set(x: u128, j0: u8, j1: u8, j2: u8, j3: u8, t: u8) -> bool {
    bit_set(byte_at(x, j0), t) && bit_set(byte_at(x, j1), t) && bit_set(byte_at(x, j2), t)
        && bit_set(byte_at(x, j3), t)
}

/// Bit `t` is clear in each of the four bytes `j0`..`j3` of `x`.
pub open spec fn four_clear(x: u128, j0: u8, j1: u8, j2: u8, j3: u8, t: u8) -> bool {
    !bit_set(byte_at(x, j0), t) && !bit_set(byte_at(x, j1), t) && !bit_set(byte_at(x, j2), t)
        && !bit_set(byte_at(x, j3), t)
}

/// The row mask moved to bit `t` of the row whose lowest byte is `4 * q` tests that
/// bit in the row's four bytes.
pub proof fn lemma_row_mask(x: u128, q: u8, t: u8)
    requires
        q < 4,
        t < 8,
    ensures
        (x & (ROW << (32 * q + t) as u8) == ROW << (32 * q + t) as u8) == four_set(
            x,
            (4 * q) as u8,
            (4 * q + 1) as u8,
            (4 * q + 2) as u8,
            (4 * q + 3) as u8,
            t,
        ),
        (x & (ROW << (32 * q + t) as u8) == 0) == four_clear(
            x,
            (4 * q) as u8,
            (4 * q + 1) as u8,
            (4 * q + 2) as u8,
            (4 * q + 3) as u8,
            t,
        ),
{
    assert((x & (0x0101_0101u128 << (32 * q + t) as u8) == 0x0101_0101u128 << (32 * q + t) as u8)
        == four_set(x, (4 * q) as u8, (4 * q + 1) as u8, (4 * q + 2) as u8, (4 * q + 3) as u8, t))
        by (bit_vector)
        requires
            q < 4,
            t < 8,
    ;
    assert((x & (0x0101_0101u128 << (32 * q + t) as u8) == 0) == four_clear(
        x,
        (4 * q) as u8,
        (4 * q + 1) as u8,
        (4 * q + 2) as u8,
        (4 * q + 3) as u8,
        t,
    )) by (bit_vector)
        requires
            q < 4,
            t < 8,
    ;
}

/// The column mask moved to bit `t` of the column whose lowest byte is `q` tests that
/// bit in the column's four bytes.
pub proof fn lemma_column_mask(x: u128, q: u8, t: u8)
    requires
        q < 4,
        t < 8,
    ensures
        (x & (COLUMN << (8 * q + t) as u8) == COLUMN << (8 * q + t) as u8) == four_set(
            x,
            q,
            (q + 4) as u8,
            (q + 8) as u8,
            (q + 12) as u8,
            t,
        ),
        (x & (COLUMN << (8 * q + t) as u8) == 0) == four_clear(
            x,
            q,
            (q + 4) as u8,
            (q + 8) as u8,
            (q + 12) as u8,
            t,
        ),
{
    assert((x & (0x0000_0001_0000_0001_0000_0001_0000_0001u128 << (8 * q + t) as u8)
        == 0x0000_0001_0000_0001_0000_0001_0000_0001u128 << (8 * q + t) as u8) == four_set(
        x,
        q,
        (q + 4) as u8,
        (q + 8) as u8,
        (q + 12) as u8,
        t,
    )) by (bit_vector)
        requires
            q < 4,
            t < 8,
    ;
    assert((x & (0x0000_0001_0000_0001_0000_0001_0000_0001u128 << (8 * q + t) as u8) == 0)
        == four_clear(x, q, (q + 4) as u8, (q + 8) as u8, (q + 12) as u8, t)) by (bit_vector)
        requires
            q < 4,
            t < 8,
    ;
}

/// The diagonal masks moved to bit `t` test that bit in bytes 0, 5, 10, 15 and
/// in bytes 3, 6, 9, 12.
pub proof fn lemma_diagonal_masks(x: u128, t: u8)
    requires
        t < 8,
    ensures
        (x & (DIAG_DOWN << t) == DIAG_DOWN << t) == four_set(x, 0, 5, 10, 15, t),
        (x & (DIAG_DOWN << t) == 0) == four_clear(x, 0, 5, 10, 15, t),
        (x & (DIAG_UP << t) == DIAG_UP << t) == four_set(x, 3, 6, 9, 12, t),
        (x & (DIAG_UP << t) == 0) == four_clear(x, 3, 6, 9, 12, t),
{
    assert((x & (0x0100_0000_0001_0000_0000_0100_0000_0001u128 << t)
        == 0x0100_0000_0001_0000_0000_0100_0000_0001u128 << t) == four_set(x, 0, 5, 10, 15, t)
        && (x & (0x0100_0000_0001_0000_0000_0100_0000_0001u128 << t) == 0) == four_clear(
        x,
        0,
        5,
        10,
        15,
        t,
    )) by (bit_vector)
        requires
            t < 8,
    ;
    assert((x & (0x0000_0001_0000_0100_0001_0000_0100_0000u128 << t)
        == 0x0000_0001_0000_0100_0001_0000_0100_0000u128 << t) == four_set(x, 3, 6, 9, 12, t)
        && (x & (0x0000_0001_0000_0100_0001_0000_0100_0000u128 << t) == 0) == four_clear(
        x,
        3,
        6,
        9,
        12,
        t,
    )) by (bit_vector)
        requires
            t < 8,
    ;
}

/// The existence bits of all sixteen bytes are set exactly when `x` covers the board mask.
pub proof fn lemma_board_mask(x: u128)
    ensures
        (x & BOARD_MASK == BOARD_MASK) == (four_set(x, 0, 1, 2, 3, 0) && four_set(x, 4, 5, 6, 7, 0)
            && four_set(x, 8, 9, 10, 11, 0) && four_set(x, 12, 13, 14, 15, 0)),
{
    assert((x & 0x0101_0101_0101_0101_0101_0101_0101_0101u128
        == 0x0101_0101_0101_0101_0101_0101_0101_0101u128) == (four_set(x, 0, 1, 2, 3, 0)
        && four_set(x, 4, 5, 6, 7, 0) && four_set(x, 8, 9, 10, 11, 0) && four_set(
        x,
        12,
        13,
        14,
        15,
        0,
    ))) by (bit_vector);
}

/// The four bits above a byte's reserved bits are the byte shifted right by four.
pub proof fn lemma_attribute_nibble(x: u128, j: u8)
    requires
        j < 16,
    ensures
        ((x >> (8 * j + 4) as u8) & 0xf) as u8 == byte_at(x, j) >> 4u8,
        ((x >> (8 * j + 4) as u8) & 0xf) < 16,
{
    assert(((x >> (8 * j + 4) as u8) & 0xf) as u8 == byte_at(x, j) >> 4u8 && ((x >> (8 * j
        + 4) as u8) & 0xf) < 16) by (bit_vector)
        requires
            j < 16,
    ;
}

/// Clearing byte `j` and writing `v` there changes byte `j` to `v` and no other byte.
pub proof fn lemma_write_byte(x: u128, j: u8, v: u8, k: u8)
    requires
        j < 16,
        k < 16,
    ensures
        byte_at((x & !(0xffu128 << (8 * j) as u8)) | ((v as u128) << (8 * j) as u8), k) == if k
            == j {
            v
        } else {
            byte_at(x, k)
        },
{
    assert(byte_at((x & !(0xffu128 << (8 * j) as u8)) | ((v as u128) << (8 * j) as u8), k) == if k
        == j {
        v
    } else {
        byte_at(x, k)
    }) by (bit_vector)
        requires
            j < 16,
            k < 16,
    ;
}

/// Two words with the same sixteen bytes are equal.
pub proof fn lemma_bytes_determine(x: u128, y: u128)
    requires
        forall|j: u8| j < 16 ==> byte_at(x, j) == byte_at(y, j),
    ensures
        x == y,
{
    assert(byte_at(x, 0) == byte_at(y, 0));
    assert(byte_at(x, 1) == byte_at(y, 1));
    assert(byte_at(x, 2) == byte_at(y, 2));
    assert(byte_at(x, 3) == byte_at(y, 3));
    assert(byte_at(x, 4) == byte_at(y, 4));
    assert(byte_at(x, 5) == byte_at(y, 5));
    assert(byte_at(x, 6) == byte_at(y, 6));
    assert(byte_at(x, 7) == byte_at(y, 7));
    assert(byte_at(x, 8) == byte_at(y, 8));
    assert(byte_at(x, 9) == byte_at(y, 9));
    assert(byte_at(x, 10) == byte_at(y, 10));
    assert(byte_at(x, 11) == byte_at(y, 11));
    assert(byte_at(x, 12) == byte_at(y, 12));
    assert(byte_at(x, 13) == byte_at(y, 13));
    assert(byte_at(x, 14) == byte_at(y, 14));
    assert(byte_at(x, 15) == byte_at(y, 15));
    assert(x == y) by (bit_vector)
        requires
            byte_at(x, 0) == byte_at(y, 0),
            byte_at(x, 1) == byte_at(y, 1),
            byte_at(x, 2) == byte_at(y, 2),
            byte_at(x, 3) == byte_at(y, 3),
            byte_at(x, 4) == byte_at(y, 4),
            byte_at(x, 5) == byte_at(y, 5),
            byte_at(x, 6) == byte_at(y, 6),
            byte_at(x, 7) == byte_at(y, 7),
            byte_at(x, 8) == byte_at(y, 8),
            byte_at(x, 9) == byte_at(y, 9),
            byte_at(x, 10) == byte_at(y, 10),
            byte_at(x, 11) == byte_at(y, 11),
            byte_at(x, 12) == byte_at(y, 12),
            byte_at(x, 13) == byte_at(y, 13),
            byte_at(x, 14) == byte_at(y, 14),
            byte_at(x, 15) == byte_at(y, 15),
    ;
}

/// The empty word has no byte with its existence bit set.
pub proof fn lemma_zero_bytes(j: u8)
    ensures
        byte_at(0, j) == 0,
        !bit_set(0, j),
{
    assert(byte_at(0, j) == 0 && !bit_set(0, j)) by (bit_vector);
}

} // verus!

//! Pieces and their one-byte cell encoding, and a list view of a board.

use vstd::prelude::*;
use crate::board::{lemma_piece_byte, piece_byte, Board, PIECE_SIZE};
use crate::packing::byte_at;

verus! {

/// One of the sixteen Quarto pieces, identified by its four binary attributes.
#[derive(Debug, PartialEq, Eq, Structural, Copy, Clone)]
pub struct Piece {
    /// fill: the piece has a hole.
    pub hole: bool,
    /// shape: the piece is square.
    pub square: bool,
    /// size: the piece is high.
    pub high: bool,
    /// color: the piece is dark.
    pub dark: bool,
}

/// The ordinal whose bits 3, 2, 1 and 0 are fill, shape, size and color.
pub open spec fn attributes_number(hole: bool, square: bool, high: bool, dark: bool) -> u8 {
    ((if hole { 8int } else { 0int }) + (if square { 4int } else { 0int }) + (if high { 2int } else {
        0int
    }) + (if dark { 1int } else { 0int })) as u8
}

/// Whether bit `k` of `b` is set.
pub open spec fn bit_set(b: u8, k: u8) -> bool {
    (b >> k) & 1 == 1
}

/// The piece stored in a cell byte: none when the existence bit (bit 0) is clear,
/// otherwise fill, shape, size and color read from bits 7, 6, 5 and 4.
pub open spec fn decode(b: u8) -> Option<Piece> {
    if !bit_set(b, 0) {
        None
    } else {
        Some(
            Piece {
                hole: bit_set(b, 7),
                square: bit_set(b, 6),
                high: bit_set(b, 5),
                dark: bit_set(b, 4),
            },
        )
    }
}

impl Piece {
    /// The ordinal of the piece in `0..16`.
    pub open spec fn number(self) -> u8 {
        attributes_number(self.hole, self.square, self.high, self.dark)
    }

    /// The cell byte of the piece: its ordinal in bits 4 to 7, the existence bit set.
    pub open spec fn byte(self) -> u8 {
        piece_byte(self.number())
    }
}

/// An ordinal is below 16, and the byte built from it decodes to the piece with
/// those attributes.
proof fn lemma_attribute_bits(hole: bool, square: bool, high: bool, dark: bool)
    ensures
        attributes_number(hole, square, high, dark) < 16,
        decode((attributes_number(hole, square, high, dark) * 16 + 1) as u8) == Some(
            Piece { hole, square, high, dark },
        ),
{
    let n = attributes_number(hole, square, high, dark);
    assert(n < 16 && bit_set(((n * 16 + 1) as u8), 0) && bit_set(((n * 16 + 1) as u8), 7) == hole
        && bit_set(((n * 16 + 1) as u8), 6) == square && bit_set(((n * 16 + 1) as u8), 5) == high
        && bit_set(((n * 16 + 1) as u8), 4) == dark) by (bit_vector)
        requires
            n == attributes_number(hole, square, high, dark),
    ;
}

impl Piece {
    /// Create a piece from its four attributes.
    pub fn new(hole: bool, square: bool, high: bool, dark: bool) -> (r: Self)
        ensures
            r == (Piece { hole, square, high, dark }),
    {
        Piece { hole, square, high, dark }
    }

    /// Read a piece from a cell byte; `None` when the existence bit is clear.
    pub fn from_u8(input: u8) -> (r: Option<Self>)
        ensures
            r == decode(input),
    {
        proof {
            lemma_byte_masks(input);
        }
        if input & 1u8 == 0 {
            return None;
        }
        Some(
            Piece {
                hole: input & (1u8 << 7u8) == (1u8 << 7u8),
                square: input & (1u8 << 6u8) == (1u8 << 6u8),
                high: input & (1u8 << 5u8) == (1u8 << 5u8),
                dark: input & (1u8 << 4u8) == (1u8 << 4u8),
            },
        )
    }

    /// The piece with ordinal `n`; `None` when `n` is not in `0..16`.
    pub fn from_number(n: u8) -> (r: Option<Self>)
        ensures
            r is Some <==> n < 16,
            r matches Some(p) ==> p.number() == n,
    {
        if n > 15 {
            return None;
        }
        let p = Piece {
            hole: n & 8 == 8,
            square: n & 4 == 4,
            high: n & 2 == 2,
            dark: n & 1 == 1,
        };
        assert(n < 16 ==> attributes_number(n & 8 == 8, n & 4 == 4, n & 2 == 2, n & 1 == 1) == n)
            by (bit_vector);
        Some(p)
    }

    /// The ordinal of the piece, a number in `0..16` that `Board::put_piece` takes.
    pub fn to_number(&self) -> (r: u8)
        ensures
            r == self.number(),
            r < 16,
    {
        let mut res: u8 = 0;
        if self.hole {
            res += 8;
        }
        if self.square {
            res += 4;
        }
        if self.high {
            res += 2;
        }
        if self.dark {
            res += 1;
        }
        res
    }

    /// The words that describe the piece: "Large, dark square with hole" and the like.
    pub open spec fn description_spec(self) -> Seq<char> {
        (if self.high { "Large"@ } else { "Small"@ }) + ", "@ + (if self.dark { "dark"@ } else {
            "light"@
        }) + " "@ + (if self.square { "square"@ } else { "circle"@ }) + " "@ + (if self.hole {
            "with"@
        } else {
            "without"@
        }) + " hole"@
    }

    /// Describe the piece in words, as it is shown to a player.
    pub fn description(&self) -> (r: String)
        ensures
            r@ == self.description_spec(),
    {
        let size = if self.high {
            "Large"
        } else {
            "Small"
        };
        let color = if self.dark {
            "dark"
        } else {
            "light"
        };
        let form = if self.square {
            "square"
        } else {
            "circle"
        };
        let hole = if self.hole {
            "with"
        } else {
            "without"
        };
        let mut res = String::from_str(size);
        res.append(", ");
        res.append(color);
        res.append(" ");
        res.append(form);
        res.append(" ");
        res.append(hole);
        res.append(" hole");
        res
    }

    /// The cell byte of the piece.
    pub fn to_u8(&self) -> (r: u8)
        ensures
            r == self.byte(),
            decode(r) == Some(*self),
    {
        proof {
            lemma_decode_byte(*self);
        }
        self.to_number() * 16 + 1
    }
}

/// The cell bit tests `from_u8` makes are the bits that `decode` reads.
proof fn lemma_byte_masks(b: u8)
    ensures
        (b & 1u8 == 0) == !bit_set(b, 0),
        (b & (1u8 << 7u8) == (1u8 << 7u8)) == bit_set(b, 7),
        (b & (1u8 << 6u8) == (1u8 << 6u8)) == bit_set(b, 6),
        (b & (1u8 << 5u8) == (1u8 << 5u8)) == bit_set(b, 5),
        (b & (1u8 << 4u8) == (1u8 << 4u8)) == bit_set(b, 4),
{
    assert((b & 1u8 == 0) == !bit_set(b, 0) && (b & (1u8 << 7u8) == (1u8 << 7u8)) == bit_set(b, 7)
        && (b & (1u8 << 6u8) == (1u8 << 6u8)) == bit_set(b, 6) && (b & (1u8 << 5u8) == (1u8
        << 5u8)) == bit_set(b, 5) && (b & (1u8 << 4u8) == (1u8 << 4u8)) == bit_set(b, 4))
        by (bit_vector);
}

/// Decoding the byte of a piece gives the piece back.
pub proof fn lemma_decode_byte(p: Piece)
    ensures
        decode(p.byte()) == Some(p),
        p.number() < 16,
{
    lemma_attribute_bits(p.hole, p.square, p.high, p.dark);
}

/// Distinct pieces have distinct ordinals, all in `0..16`.
pub proof fn lemma_number_injective(p: Piece, q: Piece)
    ensures
        p.number() < 16,
        q.number() < 16,
        p != q ==> p.number() != q.number(),
{
    lemma_decode_byte(p);
    lemma_decode_byte(q);
}

/// The cell byte of an optional piece: zero for no piece.
pub open spec fn slot_byte(slot: Option<Piece>) -> u8 {
    match slot {
        Some(p) => p.byte(),
        None => 0,
    }
}

/// The cell bytes of a list of optional pieces.
pub open spec fn encode_cells(slots: Seq<Option<Piece>>) -> Seq<u8> {
    slots.map_values(|slot: Option<Piece>| slot_byte(slot))
}

/// The optional pieces that a list of cell bytes holds.
pub open spec fn decode_cells(cells: Seq<u8>) -> Seq<Option<Piece>> {
    cells.map_values(|b: u8| decode(b))
}

/// No piece occurs twice in the list.
pub open spec fn pieces_distinct(slots: Seq<Option<Piece>>) -> bool {
    forall|a: int, b: int|
        0 <= a < b < slots.len() && #[trigger] slots[a] is Some ==> slots[a] != #[trigger] slots[b]
}

/// The byte of an ordinal in `0..16` decodes to the piece with that ordinal.
pub proof fn lemma_decode_piece_byte(n: u8)
    requires
        n < 16,
    ensures
        decode(piece_byte(n)) matches Some(p) && p.number() == n,
{
    let p = Piece {
        hole: bit_set(n, 3),
        square: bit_set(n, 2),
        high: bit_set(n, 1),
        dark: bit_set(n, 0),
    };
    assert(n < 16 ==> attributes_number(bit_set(n, 3), bit_set(n, 2), bit_set(n, 1), bit_set(n, 0))
        == n) by (bit_vector);
    lemma_decode_byte(p);
}

/// Encoding a list of sixteen optional pieces as cell bytes and decoding it gives
/// the list back.
pub proof fn lemma_list_round_trip(slots: Seq<Option<Piece>>)
    ensures
        decode_cells(encode_cells(slots)) == slots,
{
    lemma_piece_byte(0);
    assert forall|i: int| 0 <= i < slots.len() implies #[trigger] decode_cells(encode_cells(slots))[i]
        == slots[i] by {
        if let Some(p) = slots[i] {
            lemma_decode_byte(p);
        }
    }
    assert(decode_cells(encode_cells(slots)) =~= slots);
}

/// A board as a list of sixteen optional pieces, in cell order; easy to print and
/// to build by hand, slow to play on.
#[derive(Debug, PartialEq, Eq)]
pub struct PrintableBoard {
    items: Vec<Option<Piece>>,
}

impl View for PrintableBoard {
    type V = Seq<Option<Piece>>;

    closed spec fn view(&self) -> Seq<Option<Piece>> {
        self.items@
    }
}

impl PrintableBoard {
    /// A printable board always has sixteen cells.
    #[verifier::type_invariant]
    spec fn has_sixteen_cells(self) -> bool {
        self.items@.len() == 16
    }

    /// Wrap a list in a `PrintableBoard`; `None` unless it holds exactly 16 entries.
    pub fn from_list(items: Vec<Option<Piece>>) -> (r: Option<Self>)
        ensures
            r is Some <==> items@.len() == 16,
            r matches Some(pb) ==> pb@ == items@,
    {
        // Boards must have 16 spaces.
        if items.len() != 16 {
            return None;
        }
        Some(PrintableBoard { items })
    }

    /// The list view of a `Board`: each cell byte decoded, cell 0 first.
    pub fn from_board(board: Board) -> (r: Self)
        ensures
            r@ == decode_cells(board@),
    {
        let mut items: Vec<Option<Piece>> = Vec::new();
        let x = board.items();
        // Start at the most significant byte, which is cell 0.
        let mut shift: u8 = 16;
        while shift > 0
            invariant
                shift <= 16,
                x == board.bits(),
                items@.len() == 16 - shift,
                forall|i: int| 0 <= i < items@.len() ==> #[trigger] items@[i] == decode(board@[i]),
            decreases shift,
        {
            shift -= 1;
            let u8piece: u8 = (x >> (PIECE_SIZE * shift) & 255) as u8;
            assert(u8piece == byte_at(x, shift));
            items.push(Piece::from_u8(u8piece));
        }
        assert(items@ =~= decode_cells(board@));
        PrintableBoard { items }
    }

    /// A copy of the sixteen optional pieces.
    pub fn items(&self) -> (r: Vec<Option<Piece>>)
        ensures
            r@ == self@,
            r@.len() == 16,
    {
        proof {
            use_type_invariant(self);
        }
        let mut res: Vec<Option<Piece>> = Vec::new();
        let mut i: usize = 0;
        while i < self.items.len()
            invariant
                i <= self.items@.len(),
                res@ == self.items@.subrange(0, i as int),
            decreases self.items@.len() - i,
        {
            let slot = match &self.items[i] {
                Some(p) => Some(*p),
                None => None,
            };
            res.push(slot);
            i += 1;
            assert(res@ =~= self.items@.subrange(0, i as int));
        }
        assert(res@ =~= self.items@);
        res
    }
}

} // verus!

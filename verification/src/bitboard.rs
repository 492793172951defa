//! The occupancy mask: one bit per square in a 64-bit word.
//!
//! A [`BitBoard`] is read as the set of squares whose bits are set; that set
//! is its view, and every contract here is stated over it.

use crate::bits::{
    antitransposed,
    blocks_exchanged,
    byte_counts,
    files_reversed,
    lanes_summed,
    lemma_parallel_count,
    lemma_shift_off_board,
    lemma_squares_injective,
    lemma_squares_meet,
    lemma_squares_of_bitwise,
    lemma_squares_of_extremes,
    lemma_squares_of_len,
    lemma_squares_of_reflections,
    lemma_squares_of_shift,
    lemma_squares_of_single,
    lemma_squares_of_zeros,
    nibble_counts,
    pair_counts,
    squares_of,
    transposed,
};
use crate::geometry::{
    all_squares,
    flipped_antidiagonal,
    flipped_diagonal,
    flipped_horizontal,
    flipped_vertical,
    is_highest_gap,
    is_lowest_square,
    lemma_coordinates,
    lemma_flip_twice,
    lemma_rotation_cycle,
    lemma_rotations_from_flips,
    lemma_transform_len,
    lemma_vacant_len,
    rotated_clockwise,
    rotated_counterclockwise,
    rotated_half,
    shifted_down,
    shifted_up,
    square_at,
    vacant,
    within_board,
};
use crate::masks::{border_squares, lemma_mask_squares, lemma_square_array, BORDER, SQUARE_ARRAY};
use crate::square::Square;
use std::ops::{
    BitAnd,
    BitAndAssign,
    BitOr,
    BitOrAssign,
    BitXor,
    BitXorAssign,
    Not,
    Shl,
    ShlAssign,
    Shr,
    ShrAssign,
    Sub,
    SubAssign,
};
use vstd::prelude::*;
use vstd::string::StringExecFns;

verus! {

/// The four reflections of a board. Whatever implements them has a set of
/// squares, and each reflection is stated over that set.
pub trait BoardFlip: Sized {
    /// The squares that the value holds.
    spec fn board_squares(self) -> Set<int>;

    /// Flip top to bottom: rank 1 changes places with rank 8, and so on.
    fn vertical_flip(self) -> (r: Self)
        ensures
            r.board_squares() == flipped_vertical(self.board_squares()),
    ;

    /// Flip left to right: file a changes places with file h, and so on.
    fn horizontal_flip(self) -> (r: Self)
        ensures
            r.board_squares() == flipped_horizontal(self.board_squares()),
    ;

    /// Reflect in the a1-h8 diagonal.
    fn diagonal_a1_h8_flip(self) -> (r: Self)
        ensures
            r.board_squares() == flipped_diagonal(self.board_squares()),
    ;

    /// Reflect in the h1-a8 diagonal.
    fn diagonal_h1_a8_flip(self) -> (r: Self)
        ensures
            r.board_squares() == flipped_antidiagonal(self.board_squares()),
    ;
}

/// The three rotations of a board.
pub trait BoardRotate: BoardFlip {
    /// Quarter turn clockwise.
    fn rotate_90(self) -> (r: Self)
        ensures
            r.board_squares() == rotated_clockwise(self.board_squares()),
    ;

    /// Half turn.
    fn rotate_180(self) -> (r: Self)
        ensures
            r.board_squares() == rotated_half(self.board_squares()),
    ;

    /// Quarter turn counter-clockwise.
    fn rotate_270(self) -> (r: Self)
        ensures
            r.board_squares() == rotated_counterclockwise(self.board_squares()),
    ;
}

/// What can name squares to a board operation: a board, one square, a list of
/// squares, or a raw 64-bit pattern.
pub trait IntoBitBoard: Sized {
    /// The squares that the value names.
    spec fn squares(self) -> Set<int>;

    /// The board of those squares.
    fn into_board(self) -> (b: BitBoard)
        ensures
            b@ == self.squares(),
    ;
}

/// A set of squares of the board, held as a 64-bit word: bit `i` stands for
/// square `i`, bit 0 for a1, bit 7 for h1, bit 56 for a8 and bit 63 for h8.
#[derive(Clone, Copy, PartialEq, Eq, Debug, Structural)]
pub struct BitBoard(u64);

impl View for BitBoard {
    type V = Set<int>;

    /// The squares on the board.
    open spec fn view(&self) -> Set<int> {
        squares_of(self.bits())
    }
}

/// The squares named by a list of squares.
pub open spec fn ordinals(squares: Seq<Square>) -> Set<int> {
    Set::new(|i: int| exists|k: int| 0 <= k < squares.len() && #[trigger] squares[k].ordinal() == i)
}

/// The word with the bits of all squares of a list set.
pub open spec fn mask_of(squares: Seq<Square>) -> u64
    decreases squares.len(),
{
    if squares.len() == 0 {
        0
    } else {
        mask_of(squares.drop_last()) | (1u64 << (squares.last().ordinal() as u64))
    }
}

/// The word of a list of squares has exactly the squares of the list.
pub proof fn lemma_mask_of(squares: Seq<Square>)
    ensures
        squares_of(mask_of(squares)) == ordinals(squares),
    decreases squares.len(),
{
    if squares.len() == 0 {
        lemma_squares_of_extremes(0);
        assert(ordinals(squares) =~= Set::<int>::empty());
    } else {
        let head = squares.drop_last();
        let last = squares.last();
        last.lemma_ordinal(last);
        lemma_mask_of(head);
        lemma_squares_of_single(last.ordinal() as u64);
        lemma_squares_of_bitwise(mask_of(head), 1u64 << (last.ordinal() as u64));
        assert forall|i: int| ordinals(squares).contains(i) == (ordinals(head).contains(i) || i
            == last.ordinal()) by {
            if ordinals(squares).contains(i) {
                let k = choose|k: int| 0 <= k < squares.len() && squares[k].ordinal() == i;
                if k < squares.len() - 1 {
                    assert(head[k].ordinal() == i);
                }
            }
            if ordinals(head).contains(i) {
                let k = choose|k: int| 0 <= k < head.len() && head[k].ordinal() == i;
                assert(squares[k].ordinal() == i);
            }
            if i == last.ordinal() {
                assert(squares[squares.len() - 1].ordinal() == i);
            }
        }
        assert(squares_of(mask_of(squares)) =~= ordinals(squares));
    }
}

/// The eight binary digits of rank `rank` in a picture of the set `s`, from
/// file h on the left to file a on the right: `1` for a square in `s`.
pub open spec fn rank_digits(s: Set<int>, rank: int) -> Seq<char> {
    Seq::new(
        8,
        |k: int|
            if s.contains(square_at(7 - k, rank)) {
                '1'
            } else {
                '0'
            },
    )
}

/// The line of rank `rank` in a picture of the set `s`.
pub open spec fn rank_line(s: Set<int>, rank: int) -> Seq<char> {
    "        │"@ + rank_digits(s, rank) + "│\n"@
}

/// The lines of the ranks from rank 8 down to rank `from` (counted from 0)
/// in a picture of the set `s`.
pub open spec fn rank_lines(s: Set<int>, from: int) -> Seq<char>
    decreases 8 - from,
{
    if from >= 8 {
        Seq::<char>::empty()
    } else {
        rank_lines(s, from + 1) + rank_line(s, from)
    }
}

/// The picture of the set `s`: a frame around eight lines of eight binary
/// digits, rank 8 on top and rank 1 at the bottom.
pub open spec fn picture(s: Set<int>) -> Seq<char> {
    "\n        ┌────────┐\n"@ + rank_lines(s, 0) + "        └────────┘\n        "@
}

impl BitBoard {
    /// The board as a number: the sum of `2^i` over its squares `i`.
    pub closed spec fn bits(self) -> u64 {
        self.0
    }

    /// A board is a set of at most 64 squares of the board.
    pub proof fn lemma_view(self)
        ensures
            within_board(self@),
            self@.finite(),
            self@.len() <= 64,
    {
        lemma_squares_of_len(self.0);
    }

    /// A board is determined by its squares.
    pub proof fn lemma_view_injective(self, other: BitBoard)
        requires
            self@ == other@,
        ensures
            self == other,
    {
        lemma_squares_injective(self.0, other.0);
    }

    /// The board with the named squares added.
    pub fn set<T: IntoBitBoard>(self, value: T) -> (r: Self)
        ensures
            r@ == self@.union(value.squares()),
    {
        let v = value.into_board();
        proof {
            lemma_squares_of_bitwise(self.0, v.0);
        }
        BitBoard(self.0 | v.0)
    }

    /// The board with the named squares removed.
    pub fn unset<T: IntoBitBoard>(self, value: T) -> (r: Self)
        ensures
            r@ == self@.difference(value.squares()),
    {
        let v = value.into_board();
        proof {
            lemma_squares_of_bitwise(self.0, v.0);
        }
        BitBoard(self.0 & !v.0)
    }

    /// Whether any of the named squares is on the board.
    pub fn check<T: IntoBitBoard>(&self, value: T) -> (r: bool)
        ensures
            r == !self@.disjoint(value.squares()),
    {
        let v = value.into_board();
        proof {
            lemma_squares_meet(self.0, v.0);
        }
        self.0 & v.0 != 0
    }

    /// Whether the board has no square.
    pub fn is_empty(&self) -> (r: bool)
        ensures
            r == (self@ == Set::<int>::empty()),
            r == (self.bits() == 0),
    {
        proof {
            lemma_squares_of_extremes(self.0);
        }
        self.0 == 0
    }

    /// Whether the board has all 64 squares.
    pub fn is_full(&self) -> (r: bool)
        ensures
            r == (self@ == all_squares()),
            r == (self.bits() == u64::MAX),
    {
        proof {
            lemma_squares_of_extremes(self.0);
        }
        self.0 == u64::MAX
    }

    /// Whether the board has a square on rank 1, rank 8, file a or file h.
    pub fn is_border(&self) -> (r: bool)
        ensures
            r == !self@.disjoint(border_squares()),
    {
        proof {
            lemma_mask_squares();
            lemma_squares_meet(self.0, BORDER);
        }
        self.0 & BORDER != 0
    }

    /// The number of squares on the board, by the parallel bit count: pairs of
    /// bits are counted in place, the counts are folded into nibbles and then
    /// into bytes, and one multiplication adds up the eight bytes.
    pub fn swar_popcount(&self) -> (r: u8)
        ensures
            r == self@.len(),
    {
        let x = self.0;
        proof {
            lemma_parallel_count(x);
            lemma_squares_of_len(x);
        }
        let pairs = x - ((x >> 1) & 0x5555_5555_5555_5555);
        assert(pairs == pair_counts(x));
        let nibbles = (pairs & 0x3333_3333_3333_3333) + ((pairs >> 2) & 0x3333_3333_3333_3333);
        assert(nibbles == nibble_counts(x));
        let bytes = (nibbles + (nibbles >> 4)) & 0x0f0f_0f0f_0f0f_0f0f;
        assert(bytes == byte_counts(x));
        let sum = bytes.wrapping_mul(0x0101_0101_0101_0101) >> 56;
        assert(sum == lanes_summed(x));
        sum as u8
    }

    /// The number of squares on the board.
    pub fn population(&self) -> (r: u32)
        ensures
            r == self@.len(),
            r <= 64,
    {
        proof {
            lemma_squares_of_len(self.0);
        }
        self.0.count_ones()
    }

    /// The number of squares from h8 downwards that are not on the board before
    /// the first one that is: 64 for the empty board, else 63 less the
    /// highest square.
    pub fn leading_zeros(&self) -> (r: u32)
        ensures
            is_highest_gap(self@, r as int),
    {
        proof {
            lemma_squares_of_zeros(self.0);
        }
        self.0.leading_zeros()
    }

    /// The number of squares from a1 upwards that are not on the board before
    /// the first one that is: 64 for the empty board, else the lowest square.
    pub fn trailing_zeros(&self) -> (r: u32)
        ensures
            is_lowest_square(self@, r as int),
    {
        proof {
            lemma_squares_of_zeros(self.0);
        }
        self.0.trailing_zeros()
    }

    /// The picture of the board for debugging: eight lines of eight binary
    /// digits in a frame, from the most significant byte (rank 8) down to the
    /// least significant one (rank 1), each byte with its highest bit first.
    pub fn to_string(&self) -> (s: String)
        ensures
            s@ == picture(self@),
    {
        let mut s = "\n        ┌────────┐\n".to_owned();
        let mut rank: u64 = 8;
        while rank > 0
            invariant
                rank <= 8,
                s@ == "\n        ┌────────┐\n"@ + rank_lines(self@, rank as int),
            decreases rank,
        {
            rank = rank - 1;
            let ghost before = s@;
            s.append("        │");
            let mut k: u64 = 0;
            while k < 8
                invariant
                    k <= 8,
                    rank < 8,
                    s@ == before + "        │"@ + rank_digits(self@, rank as int).take(k as int),
                decreases 8 - k,
            {
                let index: u64 = rank * 8 + (7 - k);
                let ghost digits = rank_digits(self@, rank as int);
                proof {
                    lemma_coordinates(7 - k, rank as int);
                    reveal_strlit("1");
                    reveal_strlit("0");
                    assert(self@.contains(index as int) == ((self.0 >> index) & 1 == 1));
                    assert(digits.take(k + 1) =~= digits.take(k as int).push(digits[k as int]));
                }
                if (self.0 >> index) & 1 == 1 {
                    s.append("1");
                    assert(s@ =~= before + "        │"@ + digits.take(k + 1));
                } else {
                    s.append("0");
                    assert(s@ =~= before + "        │"@ + digits.take(k + 1));
                }
                k = k + 1;
            }
            s.append("│\n");
            proof {
                let digits = rank_digits(self@, rank as int);
                assert(digits.take(8) =~= digits);
                assert(s@ =~= "\n        ┌────────┐\n"@ + rank_lines(self@, rank as int));
            }
        }
        s.append("        └────────┘\n        ");
        s
    }

    /// Each reflection, applied twice, gives the board back.
    pub proof fn lemma_flip_twice(self)
        ensures
            flipped_vertical(flipped_vertical(self@)) == self@,
            flipped_horizontal(flipped_horizontal(self@)) == self@,
            flipped_diagonal(flipped_diagonal(self@)) == self@,
            flipped_antidiagonal(flipped_antidiagonal(self@)) == self@,
    {
        lemma_flip_twice(self@);
    }

    /// Four quarter turns give the board back, two make a half turn, three
    /// make the quarter turn the other way, and two half turns give the board
    /// back.
    pub proof fn lemma_rotations(self)
        ensures
            rotated_clockwise(rotated_clockwise(rotated_clockwise(rotated_clockwise(self@))))
                == self@,
            rotated_clockwise(rotated_clockwise(self@)) == rotated_half(self@),
            rotated_clockwise(rotated_clockwise(rotated_clockwise(self@)))
                == rotated_counterclockwise(self@),
            rotated_half(rotated_half(self@)) == self@,
            rotated_half(self@) == flipped_horizontal(flipped_vertical(self@)),
            rotated_half(self@) == flipped_vertical(flipped_horizontal(self@)),
            rotated_clockwise(self@) == flipped_vertical(flipped_diagonal(self@)),
            rotated_counterclockwise(self@) == flipped_diagonal(flipped_vertical(self@)),
    {
        lemma_rotation_cycle(self@);
        lemma_rotations_from_flips(self@);
    }

    /// Every reflection and rotation keeps the number of squares on the board.
    pub proof fn lemma_transforms_keep_population(self)
        ensures
            flipped_vertical(self@).len() == self@.len(),
            flipped_horizontal(self@).len() == self@.len(),
            flipped_diagonal(self@).len() == self@.len(),
            flipped_antidiagonal(self@).len() == self@.len(),
            rotated_clockwise(self@).len() == self@.len(),
            rotated_counterclockwise(self@).len() == self@.len(),
            rotated_half(self@).len() == self@.len(),
    {
        lemma_transform_len(self@);
    }

    /// The squares on a board and the squares off it are 64 together.
    pub proof fn lemma_population_of_complement(self)
        ensures
            self@.len() + vacant(self@).len() == 64,
    {
        lemma_vacant_len(self@);
    }
}

impl Default for BitBoard {
    /// The empty board.
    fn default() -> (r: Self)
        ensures
            r@ == Set::<int>::empty(),
            r.bits() == 0,
    {
        proof {
            lemma_squares_of_extremes(0);
        }
        BitBoard(0)
    }
}

impl From<Square> for BitBoard {
    /// The board with the one square `value`.
    fn from(value: Square) -> (r: Self)
        ensures
            r@ == set![value.ordinal()],
            r@.len() == 1,
            r.bits() == 1u64 << (value.ordinal() as u64),
    {
        proof {
            value.lemma_ordinal(value);
            lemma_square_array(value.ordinal());
        }
        BitBoard(SQUARE_ARRAY[value.index() as usize])
    }
}

impl vstd::std_specs::convert::FromSpecImpl<Square> for BitBoard {
    open spec fn obeys_from_spec() -> bool {
        true
    }

    closed spec fn from_spec(v: Square) -> Self {
        BitBoard(1u64 << (v.ordinal() as u64))
    }
}

impl<'a> From<&'a [Square]> for BitBoard {
    /// The board with the squares of the list `value`.
    fn from(value: &'a [Square]) -> (r: Self)
        ensures
            r@ == ordinals(value@),
            r.bits() == mask_of(value@),
    {
        let mut acc: u64 = 0;
        let mut k: usize = 0;
        assert(value@.take(0) =~= Seq::<Square>::empty());
        while k < value.len()
            invariant
                k <= value.len(),
                acc == mask_of(value@.take(k as int)),
            decreases value.len() - k,
        {
            let square = value[k];
            proof {
                square.lemma_ordinal(square);
                lemma_square_array(square.ordinal());
                let next = value@.take(k + 1);
                assert(next.drop_last() =~= value@.take(k as int));
                assert(next.last() == square);
            }
            acc = acc | SQUARE_ARRAY[square.index() as usize];
            k = k + 1;
        }
        proof {
            assert(value@.take(k as int) =~= value@);
            lemma_mask_of(value@);
        }
        BitBoard(acc)
    }
}

impl<'a> vstd::std_specs::convert::FromSpecImpl<&'a [Square]> for BitBoard {
    open spec fn obeys_from_spec() -> bool {
        true
    }

    closed spec fn from_spec(v: &'a [Square]) -> Self {
        BitBoard(mask_of(v@))
    }
}

impl From<u64> for BitBoard {
    /// The board whose squares are the set bits of `value`.
    fn from(value: u64) -> (r: Self)
        ensures
            r@ == squares_of(value),
            r.bits() == value,
    {
        BitBoard(value)
    }
}

impl vstd::std_specs::convert::FromSpecImpl<u64> for BitBoard {
    open spec fn obeys_from_spec() -> bool {
        true
    }

    closed spec fn from_spec(v: u64) -> Self {
        BitBoard(v)
    }
}

impl IntoBitBoard for BitBoard {
    open spec fn squares(self) -> Set<int> {
        self@
    }

    fn into_board(self) -> (b: BitBoard) {
        self
    }
}

impl IntoBitBoard for Square {
    open spec fn squares(self) -> Set<int> {
        set![self.ordinal()]
    }

    fn into_board(self) -> (b: BitBoard) {
        BitBoard::from(self)
    }
}

impl<'a> IntoBitBoard for &'a [Square] {
    open spec fn squares(self) -> Set<int> {
        ordinals(self@)
    }

    fn into_board(self) -> (b: BitBoard) {
        BitBoard::from(self)
    }
}

impl IntoBitBoard for u64 {
    open spec fn squares(self) -> Set<int> {
        squares_of(self)
    }

    fn into_board(self) -> (b: BitBoard) {
        BitBoard::from(self)
    }
}

impl BitAnd for BitBoard {
    type Output = Self;

    /// The squares on both boards.
    fn bitand(self, rhs: Self) -> (r: Self)
        ensures
            r@ == self@.intersect(rhs@),
    {
        proof {
            lemma_squares_of_bitwise(self.0, rhs.0);
        }
        BitBoard(self.0 & rhs.0)
    }
}

impl vstd::std_specs::ops::BitAndSpecImpl for BitBoard {
    open spec fn obeys_bitand_spec() -> bool {
        true
    }

    open spec fn bitand_req(self, rhs: Self) -> bool {
        true
    }

    closed spec fn bitand_spec(self, rhs: Self) -> Self {
        BitBoard(self.0 & rhs.0)
    }
}

impl BitAndAssign for BitBoard {
    /// The squares on both boards. The result replaces `self`.
    fn bitand_assign(&mut self, rhs: Self)
        ensures
            final(self)@ == old(self)@.intersect(rhs@),
    {
        proof {
            lemma_squares_of_bitwise(self.0, rhs.0);
        }
        self.0 = self.0 & rhs.0;
    }
}

impl BitOr for BitBoard {
    type Output = Self;

    /// The squares on either board.
    fn bitor(self, rhs: Self) -> (r: Self)
        ensures
            r@ == self@.union(rhs@),
    {
        proof {
            lemma_squares_of_bitwise(self.0, rhs.0);
        }
        BitBoard(self.0 | rhs.0)
    }
}

impl vstd::std_specs::ops::BitOrSpecImpl for BitBoard {
    open spec fn obeys_bitor_spec() -> bool {
        true
    }

    open spec fn bitor_req(self, rhs: Self) -> bool {
        true
    }

    closed spec fn bitor_spec(self, rhs: Self) -> Self {
        BitBoard(self.0 | rhs.0)
    }
}

impl BitOrAssign for BitBoard {
    /// The squares on either board. The result replaces `self`.
    fn bitor_assign(&mut self, rhs: Self)
        ensures
            final(self)@ == old(self)@.union(rhs@),
    {
        proof {
            lemma_squares_of_bitwise(self.0, rhs.0);
        }
        self.0 = self.0 | rhs.0;
    }
}

impl BitXor for BitBoard {
    type Output = Self;

    /// The squares on exactly one of the two boards.
    fn bitxor(self, rhs: Self) -> (r: Self)
        ensures
            r@ == self@.difference(rhs@).union(rhs@.difference(self@)),
    {
        proof {
            lemma_squares_of_bitwise(self.0, rhs.0);
        }
        BitBoard(self.0 ^ rhs.0)
    }
}

impl vstd::std_specs::ops::BitXorSpecImpl for BitBoard {
    open spec fn obeys_bitxor_spec() -> bool {
        true
    }

    open spec fn bitxor_req(self, rhs: Self) -> bool {
        true
    }

    closed spec fn bitxor_spec(self, rhs: Self) -> Self {
        BitBoard(self.0 ^ rhs.0)
    }
}

impl BitXorAssign for BitBoard {
    /// The squares on exactly one of the two boards. The result replaces `self`.
    fn bitxor_assign(&mut self, rhs: Self)
        ensures
            final(self)@ == old(self)@.difference(rhs@).union(rhs@.difference(old(self)@)),
    {
        proof {
            lemma_squares_of_bitwise(self.0, rhs.0);
        }
        self.0 = self.0 ^ rhs.0;
    }
}

impl Sub for BitBoard {
    type Output = Self;

    /// The squares of `self` that are not on `rhs`.
    fn sub(self, rhs: Self) -> (r: Self)
        ensures
            r@ == self@.difference(rhs@),
    {
        proof {
            lemma_squares_of_bitwise(self.0, rhs.0);
        }
        BitBoard(self.0 & !rhs.0)
    }
}

impl vstd::std_specs::ops::SubSpecImpl for BitBoard {
    open spec fn obeys_sub_spec() -> bool {
        true
    }

    open spec fn sub_req(self, rhs: Self) -> bool {
        true
    }

    closed spec fn sub_spec(self, rhs: Self) -> Self {
        BitBoard(self.0 & !rhs.0)
    }
}

impl SubAssign for BitBoard {
    /// The squares of `self` that are not on `rhs`. The result replaces `self`.
    fn sub_assign(&mut self, rhs: Self)
        ensures
            final(self)@ == old(self)@.difference(rhs@),
    {
        proof {
            lemma_squares_of_bitwise(self.0, rhs.0);
        }
        self.0 = self.0 & !rhs.0;
    }
}

impl Shl for BitBoard {
    type Output = Self;

    /// The board moved towards h8 by as many squares as the number that `rhs`
    /// is; squares that pass h8 are lost, and a move by 64 or more leaves the
    /// empty board.
    fn shl(self, rhs: Self) -> (r: Self)
        ensures
            r@ == shifted_up(self@, rhs.bits() as int),
            rhs.bits() >= 64 ==> r@ == Set::<int>::empty(),
    {
        if rhs.0 >= 64 {
            proof {
                lemma_shift_off_board(self@, rhs.0 as int);
                lemma_squares_of_extremes(0);
            }
            BitBoard(0)
        } else {
            proof {
                lemma_squares_of_shift(self.0, rhs.0);
            }
            BitBoard(self.0 << rhs.0)
        }
    }
}

impl vstd::std_specs::ops::ShlSpecImpl for BitBoard {
    open spec fn obeys_shl_spec() -> bool {
        true
    }

    open spec fn shl_req(self, rhs: Self) -> bool {
        true
    }

    closed spec fn shl_spec(self, rhs: Self) -> Self {
        if rhs.0 >= 64 {
            BitBoard(0)
        } else {
            BitBoard(self.0 << rhs.0)
        }
    }
}

impl ShlAssign for BitBoard {
    /// The board moved towards h8 by as many squares as the number that `rhs`
    /// is; squares that pass h8 are lost, and a move by 64 or more leaves the
    /// empty board. The result replaces `self`.
    fn shl_assign(&mut self, rhs: Self)
        ensures
            final(self)@ == shifted_up(old(self)@, rhs.bits() as int),
            rhs.bits() >= 64 ==> final(self)@ == Set::<int>::empty(),
    {
        if rhs.0 >= 64 {
            proof {
                lemma_shift_off_board(self@, rhs.0 as int);
                lemma_squares_of_extremes(0);
            }
            self.0 = 0;
        } else {
            proof {
                lemma_squares_of_shift(self.0, rhs.0);
            }
            self.0 = self.0 << rhs.0;
        }
    }
}

impl Shr for BitBoard {
    type Output = Self;

    /// The board moved towards a1 by as many squares as the number that `rhs`
    /// is; squares that pass a1 are lost, and a move by 64 or more leaves the
    /// empty board.
    fn shr(self, rhs: Self) -> (r: Self)
        ensures
            r@ == shifted_down(self@, rhs.bits() as int),
            rhs.bits() >= 64 ==> r@ == Set::<int>::empty(),
    {
        if rhs.0 >= 64 {
            proof {
                lemma_shift_off_board(self@, rhs.0 as int);
                lemma_squares_of_extremes(0);
            }
            BitBoard(0)
        } else {
            proof {
                lemma_squares_of_shift(self.0, rhs.0);
            }
            BitBoard(self.0 >> rhs.0)
        }
    }
}

impl vstd::std_specs::ops::ShrSpecImpl for BitBoard {
    open spec fn obeys_shr_spec() -> bool {
        true
    }

    open spec fn shr_req(self, rhs: Self) -> bool {
        true
    }

    closed spec fn shr_spec(self, rhs: Self) -> Self {
        if rhs.0 >= 64 {
            BitBoard(0)
        } else {
            BitBoard(self.0 >> rhs.0)
        }
    }
}

impl ShrAssign for BitBoard {
    /// The board moved towards a1 by as many squares as the number that `rhs`
    /// is; squares that pass a1 are lost, and a move by 64 or more leaves the
    /// empty board. The result replaces `self`.
    fn shr_assign(&mut self, rhs: Self)
        ensures
            final(self)@ == shifted_down(old(self)@, rhs.bits() as int),
            rhs.bits() >= 64 ==> final(self)@ == Set::<int>::empty(),
    {
        if rhs.0 >= 64 {
            proof {
                lemma_shift_off_board(self@, rhs.0 as int);
                lemma_squares_of_extremes(0);
            }
            self.0 = 0;
        } else {
            proof {
                lemma_squares_of_shift(self.0, rhs.0);
            }
            self.0 = self.0 >> rhs.0;
        }
    }
}

impl Not for BitBoard {
    type Output = Self;

    /// The squares that are not on the board.
    fn not(self) -> (r: Self)
        ensures
            r@ == vacant(self@),
    {
        proof {
            lemma_squares_of_bitwise(self.0, self.0);
        }
        BitBoard(!self.0)
    }
}

impl vstd::std_specs::ops::NotSpecImpl for BitBoard {
    open spec fn obeys_not_spec() -> bool {
        true
    }

    open spec fn not_req(self) -> bool {
        true
    }

    closed spec fn not_spec(self) -> Self {
        BitBoard(!self.0)
    }
}

impl BoardFlip for BitBoard {
    open spec fn board_squares(self) -> Set<int> {
        self@
    }

    /// Rank 1 changes places with rank 8, rank 2 with rank 7, and so on: the
    /// eight bytes of the word in the opposite order.
    fn vertical_flip(self) -> (r: Self)
        ensures
            r@ == flipped_vertical(self@),
    {
        proof {
            lemma_squares_of_reflections(self.0);
        }
        BitBoard(self.0.swap_bytes())
    }

    /// File a changes places with file h, file b with file g, and so on: the
    /// bits of every byte in the opposite order.
    fn horizontal_flip(self) -> (r: Self)
        ensures
            r@ == flipped_horizontal(self@),
    {
        proof {
            lemma_squares_of_reflections(self.0);
        }
        let x0 = self.0;
        let x1 = x0 ^ (0x0f0f_0f0f_0f0f_0f0f & (x0 ^ x0.rotate_left(8)));
        let x2 = x1 ^ (0x3333_3333_3333_3333 & (x1 ^ x1.rotate_left(4)));
        let x3 = x2 ^ (0x5555_5555_5555_5555 & (x2 ^ x2.rotate_left(2)));
        let x4 = x3.rotate_right(7);
        assert(x4 == files_reversed(x0));
        BitBoard(x4)
    }

    /// Every square changes file and rank: the 8x8 bit matrix transposed.
    fn diagonal_a1_h8_flip(self) -> (r: Self)
        ensures
            r@ == flipped_diagonal(self@),
    {
        proof {
            lemma_squares_of_reflections(self.0);
        }
        let x0 = self.0;
        let t1 = 0x0f0f_0f0f_0000_0000 & (x0 ^ (x0 << 28));
        let x1 = x0 ^ (t1 ^ (t1 >> 28));
        assert(x1 == blocks_exchanged(x0, 0x0f0f_0f0f_0000_0000, 28));
        let t2 = 0x3333_0000_3333_0000 & (x1 ^ (x1 << 14));
        let x2 = x1 ^ (t2 ^ (t2 >> 14));
        assert(x2 == blocks_exchanged(x1, 0x3333_0000_3333_0000, 14));
        let t3 = 0x5500_5500_5500_5500 & (x2 ^ (x2 << 7));
        let x3 = x2 ^ (t3 ^ (t3 >> 7));
        assert(x3 == transposed(x0));
        BitBoard(x3)
    }

    /// Every square goes to the one that mirrors it in the h1-a8 diagonal.
    fn diagonal_h1_a8_flip(self) -> (r: Self)
        ensures
            r@ == flipped_antidiagonal(self@),
    {
        proof {
            lemma_squares_of_reflections(self.0);
        }
        let x0 = self.0;
        let t1 = x0 ^ (x0 << 36);
        let x1 = x0 ^ (0xf0f0_f0f0_0f0f_0f0f & (t1 ^ (x0 >> 36)));
        let t2 = 0xcccc_0000_cccc_0000 & (x1 ^ (x1 << 18));
        let x2 = x1 ^ (t2 ^ (t2 >> 18));
        assert(x2 == blocks_exchanged(x1, 0xcccc_0000_cccc_0000, 18));
        let t3 = 0xaa00_aa00_aa00_aa00 & (x2 ^ (x2 << 9));
        let x3 = x2 ^ (t3 ^ (t3 >> 9));
        assert(x3 == antitransposed(x0));
        BitBoard(x3)
    }
}

impl BoardRotate for BitBoard {
    /// Quarter turn clockwise: the diagonal flip, then the vertical flip. A
    /// piece on a1 comes to a8.
    fn rotate_90(self) -> (r: Self)
        ensures
            r@ == rotated_clockwise(self@),
    {
        proof {
            lemma_rotations_from_flips(self@);
        }
        self.diagonal_a1_h8_flip().vertical_flip()
    }

    /// Half turn: the vertical flip, then the horizontal flip. A piece on a1
    /// comes to h8.
    fn rotate_180(self) -> (r: Self)
        ensures
            r@ == rotated_half(self@),
    {
        proof {
            lemma_rotations_from_flips(self@);
        }
        self.vertical_flip().horizontal_flip()
    }

    /// Quarter turn counter-clockwise: the vertical flip, then the diagonal
    /// flip. A piece on a1 comes to h1.
    fn rotate_270(self) -> (r: Self)
        ensures
            r@ == rotated_counterclockwise(self@),
    {
        proof {
            lemma_rotations_from_flips(self@);
        }
        self.vertical_flip().diagonal_a1_h8_flip()
    }
}

} // verus!

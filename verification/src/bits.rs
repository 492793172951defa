//! Machine words as sets of squares.
//!
//! A 64-bit word stands for the set of squares whose bits are set
//! ([`squares_of`]). This module says what each word operation does to that
//! set, so that the rest of the library can reason about sets alone.

use crate::geometry::{
    all_squares,
    count_below,
    file_of,
    flipped_antidiagonal,
    flipped_diagonal,
    flipped_horizontal,
    flipped_vertical,
    is_highest_gap,
    is_lowest_square,
    lemma_board_set_len,
    lemma_square_maps,
    lemma_square_of_coordinates,
    mirror_antidiagonal,
    mirror_diagonal,
    mirror_horizontal,
    mirror_vertical,
    on_board,
    rank_of,
    shifted_down,
    shifted_up,
    vacant,
    within_board,
};
use vstd::prelude::*;
use vstd::std_specs::bits::{
    axiom_u64_leading_zeros,
    axiom_u64_trailing_zeros,
    u64_leading_zeros,
    u64_trailing_zeros,
};

verus! {

/// Bit `i` of `x` is set. Meant for `i < 64`.
pub open spec fn bit_at(x: u64, i: u64) -> bool {
    (x >> i) & 1 == 1
}

/// The squares whose bits are set in `x`.
pub open spec fn squares_of(x: u64) -> Set<int> {
    Set::new(|i: int| on_board(i) && bit_at(x, i as u64))
}

/// What the bitwise operators do to a single bit.
pub proof fn lemma_bitwise(a: u64, b: u64, i: u64)
    by (bit_vector)
    requires
        i < 64,
    ensures
        bit_at(a | b, i) == (bit_at(a, i) || bit_at(b, i)),
        bit_at(a & b, i) == (bit_at(a, i) && bit_at(b, i)),
        bit_at(a ^ b, i) == (bit_at(a, i) != bit_at(b, i)),
        bit_at(a & !b, i) == (bit_at(a, i) && !bit_at(b, i)),
        bit_at(!a, i) == !bit_at(a, i),
        !bit_at(0, i),
        bit_at(0xFFFF_FFFF_FFFF_FFFF, i),
        (a >> i) & 1 == 0 || (a >> i) & 1 == 1,
{
}

/// The word `1 << k` has bit `k` set and no other.
pub proof fn lemma_single_bit(k: u64, i: u64)
    by (bit_vector)
    requires
        k < 64,
        i < 64,
    ensures
        bit_at(1u64 << k, i) == (i == k),
{
}

/// What a shift by less than the word size does to a single bit.
pub proof fn lemma_shifted_bit(x: u64, n: u64, i: u64)
    by (bit_vector)
    requires
        n < 64,
        i < 64,
    ensures
        bit_at(x << n, i) == (i >= n && bit_at(x, (i - n) as u64)),
        bit_at(x >> n, i) == (i + n < 64 && bit_at(x, (i + n) as u64)),
{
}

/// Words that differ nowhere are equal.
pub proof fn lemma_xor_zero(a: u64, b: u64)
    by (bit_vector)
    requires
        a ^ b == 0,
    ensures
        a == b,
{
}

/// A word other than zero has a set bit.
pub proof fn lemma_nonzero_has_square(x: u64)
    requires
        x != 0,
    ensures
        squares_of(x).contains(u64_trailing_zeros(x) as int),
{
    axiom_u64_trailing_zeros(x);
}

/// A word is determined by its set of squares.
pub proof fn lemma_squares_injective(a: u64, b: u64)
    requires
        squares_of(a) == squares_of(b),
    ensures
        a == b,
{
    let d = a ^ b;
    if d != 0 {
        lemma_nonzero_has_square(d);
        let i = u64_trailing_zeros(d) as int;
        assert(bit_at(d, i as u64));
        lemma_bitwise(a, b, i as u64);
        assert(squares_of(a).contains(i) == bit_at(a, i as u64));
        assert(squares_of(a).contains(i) != squares_of(b).contains(i));
    }
    lemma_xor_zero(a, b);
}

/// The bitwise operators are the set operations on squares: `|` is union,
/// `&` intersection, `& !` difference, `^` symmetric difference, and `!` the
/// rest of the board.
pub proof fn lemma_squares_of_bitwise(a: u64, b: u64)
    ensures
        squares_of(a | b) == squares_of(a).union(squares_of(b)),
        squares_of(a & b) == squares_of(a).intersect(squares_of(b)),
        squares_of(a & !b) == squares_of(a).difference(squares_of(b)),
        squares_of(a ^ b) == squares_of(a).difference(squares_of(b)).union(
            squares_of(b).difference(squares_of(a)),
        ),
        squares_of(!a) == vacant(squares_of(a)),
{
    assert forall|i: int| on_board(i) implies bit_at(a | b, i as u64) == (bit_at(a, i as u64)
        || bit_at(b, i as u64)) && bit_at(a & b, i as u64) == (bit_at(a, i as u64) && bit_at(
        b,
        i as u64,
    )) && bit_at(a ^ b, i as u64) == (bit_at(a, i as u64) != bit_at(b, i as u64)) && bit_at(
        a & !b,
        i as u64,
    ) == (bit_at(a, i as u64) && !bit_at(b, i as u64)) && bit_at(!a, i as u64) == !bit_at(
        a,
        i as u64,
    ) by {
        lemma_bitwise(a, b, i as u64);
    }
    assert(squares_of(a | b) =~= squares_of(a).union(squares_of(b)));
    assert(squares_of(a & b) =~= squares_of(a).intersect(squares_of(b)));
    assert(squares_of(a & !b) =~= squares_of(a).difference(squares_of(b)));
    assert(squares_of(a ^ b) =~= squares_of(a).difference(squares_of(b)).union(
        squares_of(b).difference(squares_of(a)),
    ));
    assert(squares_of(!a) =~= vacant(squares_of(a)));
}

/// Zero is the empty board, and it is the only word that is; the word of all
/// ones is the full board, and it is the only word that is.
pub proof fn lemma_squares_of_extremes(x: u64)
    ensures
        squares_of(0) == Set::<int>::empty(),
        squares_of(0xFFFF_FFFF_FFFF_FFFF) == all_squares(),
        (x == 0) == (squares_of(x) == Set::<int>::empty()),
        (x == 0xFFFF_FFFF_FFFF_FFFF) == (squares_of(x) == all_squares()),
{
    assert forall|i: int| on_board(i) implies !bit_at(0, i as u64) && bit_at(
        0xFFFF_FFFF_FFFF_FFFF,
        i as u64,
    ) by {
        lemma_bitwise(0, 0, i as u64);
    }
    assert(squares_of(0) =~= Set::<int>::empty());
    assert(squares_of(0xFFFF_FFFF_FFFF_FFFF) =~= all_squares());
    if squares_of(x) == Set::<int>::empty() {
        lemma_squares_injective(x, 0);
    }
    if squares_of(x) == all_squares() {
        lemma_squares_injective(x, 0xFFFF_FFFF_FFFF_FFFF);
    }
}

/// Two words have a set bit in common exactly when their sets of squares meet.
pub proof fn lemma_squares_meet(a: u64, b: u64)
    ensures
        (a & b != 0) == !squares_of(a).disjoint(squares_of(b)),
{
    lemma_squares_of_bitwise(a, b);
    lemma_squares_of_extremes(a & b);
    if a & b != 0 {
        lemma_nonzero_has_square(a & b);
        let i = u64_trailing_zeros(a & b) as int;
        assert(squares_of(a).contains(i) && squares_of(b).contains(i));
    } else {
        assert forall|i: int| !(squares_of(a).contains(i) && squares_of(b).contains(i)) by {
            assert(!squares_of(a).intersect(squares_of(b)).contains(i));
        }
    }
}

/// The word `1 << k` is the board with square `k` alone.
pub proof fn lemma_squares_of_single(k: u64)
    requires
        k < 64,
    ensures
        squares_of(1u64 << k) == set![k as int],
{
    assert forall|i: int| squares_of(1u64 << k).contains(i) == set![k as int].contains(i) by {
        if on_board(i) {
            lemma_single_bit(k, i as u64);
        }
    }
    assert(squares_of(1u64 << k) =~= set![k as int]);
}

/// A shift by `n < 64` moves every square by `n` and drops what leaves the
/// board.
pub proof fn lemma_squares_of_shift(x: u64, n: u64)
    requires
        n < 64,
    ensures
        squares_of(x << n) == shifted_up(squares_of(x), n as int),
        squares_of(x >> n) == shifted_down(squares_of(x), n as int),
{
    assert forall|i: int| on_board(i) implies bit_at(x << n, i as u64) == (i >= n && bit_at(
        x,
        (i - n) as u64,
    )) && bit_at(x >> n, i as u64) == (i + n < 64 && bit_at(x, (i + n) as u64)) by {
        lemma_shifted_bit(x, n, i as u64);
    }
    assert(squares_of(x << n) =~= shifted_up(squares_of(x), n as int));
    assert(squares_of(x >> n) =~= shifted_down(squares_of(x), n as int));
}

/// Moving a set of squares by 64 or more leaves nothing on the board.
pub proof fn lemma_shift_off_board(s: Set<int>, n: int)
    requires
        n >= 64,
    ensures
        shifted_up(s, n) == Set::<int>::empty(),
        shifted_down(s, n) == Set::<int>::empty(),
{
    assert(shifted_up(s, n) =~= Set::<int>::empty());
    assert(shifted_down(s, n) =~= Set::<int>::empty());
}

/// The count of trailing zero bits is the lowest square, and the count of
/// leading zero bits is the distance of the highest square from the top.
pub proof fn lemma_squares_of_zeros(x: u64)
    ensures
        is_lowest_square(squares_of(x), u64_trailing_zeros(x) as int),
        is_highest_gap(squares_of(x), u64_leading_zeros(x)),
{
    axiom_u64_trailing_zeros(x);
    axiom_u64_leading_zeros(x);
    let s = squares_of(x);
    let t = u64_trailing_zeros(x) as int;
    assert forall|i: int| 0 <= i < t implies !s.contains(i) by {
        let j = i as u64;
        assert((x >> j) & 1u64 == 0u64);
    }
    let l = u64_leading_zeros(x);
    if l < 64 {
        let j = (63 - l) as u64;
        lemma_bitwise(x, x, j);
        assert(s.contains(63 - l));
    }
    assert forall|i: int| 63 - l < i < 64 implies !s.contains(i) by {
        let j = i as u64;
        assert((x >> j) & 1u64 == 0u64);
    }
}

/// Byte `k` of `x`, counted from the least significant one. Meant for `k < 8`.
pub open spec fn byte_of(x: u64, k: u64) -> u64 {
    (x >> ((8 * k) as u64)) & 0xff
}

/// The word made of the bytes of `x` in the opposite order.
pub open spec fn bytes_reversed(x: u64) -> u64 {
    (byte_of(x, 0) << 56) | (byte_of(x, 1) << 48) | (byte_of(x, 2) << 40) | (byte_of(x, 3) << 32)
        | (byte_of(x, 4) << 24) | (byte_of(x, 5) << 16) | (byte_of(x, 6) << 8) | byte_of(x, 7)
}

/// The word `x` with its bits moved `n` places towards the most significant
/// end, those that leave at the top coming back at the bottom. Meant for
/// `n < 64`.
pub open spec fn rotated_left(x: u64, n: u32) -> u64 {
    if n == 0 {
        x
    } else {
        (x << (n as u64)) | (x >> ((64 - n) as u64))
    }
}

/// The word `x` with its bits moved `n` places towards the least significant
/// end, those that leave at the bottom coming back at the top. Meant for
/// `n < 64`.
pub open spec fn rotated_right(x: u64, n: u32) -> u64 {
    if n == 0 {
        x
    } else {
        (x >> (n as u64)) | (x << ((64 - n) as u64))
    }
}

/// Assumed of `u64::count_ones`, which the standard library documents as
/// returning the number of ones in the binary representation: the result is
/// the number of squares of `x`.
pub assume_specification[ u64::count_ones ](x: u64) -> (r: u32)
    ensures
        r == squares_of(x).len(),
;

/// Assumed of `u64::swap_bytes`, which the standard library documents as
/// reversing the byte order of the integer: the result is `x` with its eight
/// bytes in the opposite order.
pub assume_specification[ u64::swap_bytes ](x: u64) -> (r: u64)
    ensures
        r == bytes_reversed(x),
;

/// Assumed of `u64::rotate_left`, which the standard library documents as
/// shifting the bits to the left by `n`, wrapping the truncated bits to the
/// end of the resulting integer. Stated for rotations by less than the word
/// size only.
pub assume_specification[ u64::rotate_left ](x: u64, n: u32) -> (r: u64)
    requires
        n < 64,
    ensures
        r == rotated_left(x, n),
;

/// Assumed of `u64::rotate_right`, which the standard library documents as
/// shifting the bits to the right by `n`, wrapping the truncated bits to the
/// beginning of the resulting integer. Stated for rotations by less than the
/// word size only.
pub assume_specification[ u64::rotate_right ](x: u64, n: u32) -> (r: u64)
    requires
        n < 64,
    ensures
        r == rotated_right(x, n),
;

/// Mirror of each byte of `x`: three rounds exchange, inside every byte, the
/// two nibbles, then the bit pairs inside each nibble, then the bits
/// inside each pair; each round works on the word rotated so that partners line
/// up, and a final rotation by seven puts the bytes back in place.
pub open spec fn files_reversed(x: u64) -> u64 {
    let x1 = x ^ (0x0f0f_0f0f_0f0f_0f0f & (x ^ rotated_left(x, 8)));
    let x2 = x1 ^ (0x3333_3333_3333_3333 & (x1 ^ rotated_left(x1, 4)));
    let x3 = x2 ^ (0x5555_5555_5555_5555 & (x2 ^ rotated_left(x2, 2)));
    rotated_right(x3, 7)
}

/// One exchange step of the bit-matrix transpose: the bits of `x` selected by
/// `mask` change places with the bits `distance` positions below them.
pub open spec fn blocks_exchanged(x: u64, mask: u64, distance: u64) -> u64 {
    let t = mask & (x ^ (x << distance));
    x ^ (t ^ (t >> distance))
}

/// The 8x8 bit matrix `x` transposed about the a1-h8 diagonal, by exchanging
/// the off-diagonal 4x4 blocks, then 2x2 blocks, then single bits.
pub open spec fn transposed(x: u64) -> u64 {
    let x1 = blocks_exchanged(x, 0x0f0f_0f0f_0000_0000, 28);
    let x2 = blocks_exchanged(x1, 0x3333_0000_3333_0000, 14);
    blocks_exchanged(x2, 0x5500_5500_5500_5500, 7)
}

/// The 8x8 bit matrix `x` transposed about the h1-a8 diagonal, by exchanging
/// the diagonal 4x4 blocks, then 2x2 blocks, then single bits.
pub open spec fn antitransposed(x: u64) -> u64 {
    let t = x ^ (x << 36);
    let x1 = x ^ (0xf0f0_f0f0_0f0f_0f0f & (t ^ (x >> 36)));
    let x2 = blocks_exchanged(x1, 0xcccc_0000_cccc_0000, 18);
    blocks_exchanged(x2, 0xaa00_aa00_aa00_aa00, 9)
}

/// The reflections, bit by bit: the bit on file `f` and rank `r` of each
/// result is the bit of `x` on the mirrored square.
pub proof fn lemma_reflected_bit(x: u64, f: u64, r: u64)
    by (bit_vector)
    requires
        f < 8,
        r < 8,
    ensures
        bit_at(bytes_reversed(x), (r * 8 + f) as u64) == bit_at(x, ((7 - r) * 8 + f) as u64),
        bit_at(files_reversed(x), (r * 8 + f) as u64) == bit_at(x, (r * 8 + (7 - f)) as u64),
        bit_at(transposed(x), (r * 8 + f) as u64) == bit_at(x, (f * 8 + r) as u64),
        bit_at(antitransposed(x), (r * 8 + f) as u64) == bit_at(
            x,
            ((7 - f) * 8 + (7 - r)) as u64,
        ),
{
}

/// The four word-level reflections are the four reflections of the set of
/// squares.
pub proof fn lemma_squares_of_reflections(x: u64)
    ensures
        squares_of(bytes_reversed(x)) == flipped_vertical(squares_of(x)),
        squares_of(files_reversed(x)) == flipped_horizontal(squares_of(x)),
        squares_of(transposed(x)) == flipped_diagonal(squares_of(x)),
        squares_of(antitransposed(x)) == flipped_antidiagonal(squares_of(x)),
{
    assert forall|i: int| on_board(i) implies {
        &&& bit_at(bytes_reversed(x), i as u64) == bit_at(x, mirror_vertical(i) as u64)
        &&& bit_at(files_reversed(x), i as u64) == bit_at(x, mirror_horizontal(i) as u64)
        &&& bit_at(transposed(x), i as u64) == bit_at(x, mirror_diagonal(i) as u64)
        &&& bit_at(antitransposed(x), i as u64) == bit_at(x, mirror_antidiagonal(i) as u64)
        &&& on_board(mirror_vertical(i))
        &&& on_board(mirror_horizontal(i))
        &&& on_board(mirror_diagonal(i))
        &&& on_board(mirror_antidiagonal(i))
    } by {
        lemma_square_of_coordinates(i);
        lemma_square_maps(i);
        lemma_reflected_bit(x, file_of(i) as u64, rank_of(i) as u64);
    }
    assert(squares_of(bytes_reversed(x)) =~= flipped_vertical(squares_of(x)));
    assert(squares_of(files_reversed(x)) =~= flipped_horizontal(squares_of(x)));
    assert(squares_of(transposed(x)) =~= flipped_diagonal(squares_of(x)));
    assert(squares_of(antitransposed(x)) =~= flipped_antidiagonal(squares_of(x)));
}

/// Bit `i` of `x` as a number, 0 or 1.
pub open spec fn bit_value(x: u64, i: u64) -> int {
    ((x >> i) & 1) as int
}

/// How many of the eight bits of `x` from bit `first` upwards are set.
pub open spec fn ones_in_byte(x: u64, first: u64) -> int {
    bit_value(x, first) + bit_value(x, (first + 1) as u64) + bit_value(x, (first + 2) as u64)
        + bit_value(x, (first + 3) as u64) + bit_value(x, (first + 4) as u64) + bit_value(
        x,
        (first + 5) as u64,
    ) + bit_value(x, (first + 6) as u64) + bit_value(x, (first + 7) as u64)
}

/// How many bits of `x` are set, as the sum of its 64 bits.
pub open spec fn ones_total(x: u64) -> int {
    ones_in_byte(x, 0) + ones_in_byte(x, 8) + ones_in_byte(x, 16) + ones_in_byte(x, 24)
        + ones_in_byte(x, 32) + ones_in_byte(x, 40) + ones_in_byte(x, 48) + ones_in_byte(x, 56)
}

/// First step of the parallel bit count: every two-bit field of the result
/// holds the number of set bits of that field of `x`.
pub open spec fn pair_counts(x: u64) -> u64 {
    (x - ((x >> 1) & 0x5555_5555_5555_5555)) as u64
}

/// Second step: every four-bit field of the result holds the number of set
/// bits of that field of `x`.
pub open spec fn nibble_counts(x: u64) -> u64 {
    let p = pair_counts(x);
    ((p & 0x3333_3333_3333_3333) + ((p >> 2) & 0x3333_3333_3333_3333)) as u64
}

/// Third step: every byte of the result holds the number of set bits of that
/// byte of `x`.
pub open spec fn byte_counts(x: u64) -> u64 {
    let n = nibble_counts(x);
    ((n + (n >> 4)) as u64) & 0x0f0f_0f0f_0f0f_0f0f
}

/// Last step: the eight byte counts added up, by a multiplication modulo
/// 2^64 whose top byte collects the sum.
pub open spec fn lanes_summed(x: u64) -> u64 {
    (((byte_counts(x) * 0x0101_0101_0101_0101) % 0x1_0000_0000_0000_0000) as u64) >> 56
}

/// The parallel bit count adds up the 64 bits, and none of its steps leaves
/// the range of a word.
pub proof fn lemma_parallel_count(x: u64)
    by (bit_vector)
    ensures
        (x >> 1) & 0x5555_5555_5555_5555 <= x,
        (pair_counts(x) & 0x3333_3333_3333_3333) + ((pair_counts(x) >> 2)
            & 0x3333_3333_3333_3333) <= 0xFFFF_FFFF_FFFF_FFFF,
        nibble_counts(x) + (nibble_counts(x) >> 4) <= 0xFFFF_FFFF_FFFF_FFFF,
        lanes_summed(x) == ones_total(x),
{
}

/// The sum of the eight bits from `first` upwards is the number of squares
/// among those eight that are in the set of `x`.
pub proof fn lemma_ones_in_byte(x: u64, first: u64)
    requires
        first <= 56,
    ensures
        count_below(squares_of(x), first + 8) == count_below(squares_of(x), first as int)
            + ones_in_byte(x, first),
{
    let s = squares_of(x);
    lemma_bitwise(x, x, first);
    lemma_bitwise(x, x, (first + 1) as u64);
    lemma_bitwise(x, x, (first + 2) as u64);
    lemma_bitwise(x, x, (first + 3) as u64);
    lemma_bitwise(x, x, (first + 4) as u64);
    lemma_bitwise(x, x, (first + 5) as u64);
    lemma_bitwise(x, x, (first + 6) as u64);
    lemma_bitwise(x, x, (first + 7) as u64);
    assert(count_below(s, first + 1) == count_below(s, first as int) + bit_value(x, first));
    assert(count_below(s, first + 2) == count_below(s, first + 1) + bit_value(
        x,
        (first + 1) as u64,
    ));
    assert(count_below(s, first + 3) == count_below(s, first + 2) + bit_value(
        x,
        (first + 2) as u64,
    ));
    assert(count_below(s, first + 4) == count_below(s, first + 3) + bit_value(
        x,
        (first + 3) as u64,
    ));
    assert(count_below(s, first + 5) == count_below(s, first + 4) + bit_value(
        x,
        (first + 4) as u64,
    ));
    assert(count_below(s, first + 6) == count_below(s, first + 5) + bit_value(
        x,
        (first + 5) as u64,
    ));
    assert(count_below(s, first + 7) == count_below(s, first + 6) + bit_value(
        x,
        (first + 6) as u64,
    ));
    assert(count_below(s, first + 8) == count_below(s, first + 7) + bit_value(
        x,
        (first + 7) as u64,
    ));
}

/// The parallel bit count of a word is the size of its set of squares.
pub proof fn lemma_squares_of_len(x: u64)
    ensures
        squares_of(x).finite(),
        squares_of(x).len() == lanes_summed(x),
        squares_of(x).len() <= 64,
{
    let s = squares_of(x);
    lemma_board_set_len(s);
    lemma_parallel_count(x);
    lemma_ones_in_byte(x, 0);
    lemma_ones_in_byte(x, 8);
    lemma_ones_in_byte(x, 16);
    lemma_ones_in_byte(x, 24);
    lemma_ones_in_byte(x, 32);
    lemma_ones_in_byte(x, 40);
    lemma_ones_in_byte(x, 48);
    lemma_ones_in_byte(x, 56);
    assert(count_below(s, 0) == 0);
}

} // verus!

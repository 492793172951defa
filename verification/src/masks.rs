//! The table of constant masks: files, ranks, the two long diagonals, the
//! colour complexes, the border, the empty and the full board, and the
//! single-square table.
//!
//! The constants are raw 64-bit patterns; `BitBoard::from` turns one into a
//! board. For each constant this module says which set of squares it is, and
//! proves it from the pattern.

use crate::bits::{bit_at, lemma_squares_of_extremes, lemma_squares_of_single, squares_of};
use crate::geometry::{
    all_squares,
    count_below,
    file_of,
    lemma_all_squares,
    lemma_board_set_len,
    lemma_count_rank,
    lemma_vacant_len,
    on_board,
    rank_of,
    vacant,
};
use vstd::prelude::*;

verus! {

pub const A_FILE: u64 = 0x0101010101010101;

pub const B_FILE: u64 = 0x0202020202020202;

pub const C_FILE: u64 = 0x0404040404040404;

pub const D_FILE: u64 = 0x0808080808080808;

pub const E_FILE: u64 = 0x1010101010101010;

pub const F_FILE: u64 = 0x2020202020202020;

pub const G_FILE: u64 = 0x4040404040404040;

pub const H_FILE: u64 = 0x8080808080808080;

pub const RANK_1: u64 = 0x00000000000000FF;

pub const RANK_2: u64 = 0x000000000000FF00;

pub const RANK_3: u64 = 0x0000000000FF0000;

pub const RANK_4: u64 = 0x00000000FF000000;

pub const RANK_5: u64 = 0x000000FF00000000;

pub const RANK_6: u64 = 0x0000FF0000000000;

pub const RANK_7: u64 = 0x00FF000000000000;

pub const RANK_8: u64 = 0xFF00000000000000;

pub const BORDER: u64 = 0xFF818181818181FF;

pub const A1_H8_DIAGONAL: u64 = 0x8040201008040201;

pub const H1_A8_DIAGONAL: u64 = 0x0102040810204080;

pub const LIGHT_SQUARES: u64 = 0x55AA55AA55AA55AA;

pub const DARK_SQUARES: u64 = 0xAA55AA55AA55AA55;

pub const EMPTY: u64 = 0x0000000000000000;

pub const FULL: u64 = 0xFFFFFFFFFFFFFFFF;

/// Entry `i` is the pattern with bit `i` alone.
pub const SQUARE_ARRAY: [u64; 64] = [
    0b1,
    0b10,
    0b100,
    0b1000,
    0b10000,
    0b100000,
    0b1000000,
    0b10000000,
    0b100000000,
    0b1000000000,
    0b10000000000,
    0b100000000000,
    0b1000000000000,
    0b10000000000000,
    0b100000000000000,
    0b1000000000000000,
    0b10000000000000000,
    0b100000000000000000,
    0b1000000000000000000,
    0b10000000000000000000,
    0b100000000000000000000,
    0b1000000000000000000000,
    0b10000000000000000000000,
    0b100000000000000000000000,
    0b1000000000000000000000000,
    0b10000000000000000000000000,
    0b100000000000000000000000000,
    0b1000000000000000000000000000,
    0b10000000000000000000000000000,
    0b100000000000000000000000000000,
    0b1000000000000000000000000000000,
    0b10000000000000000000000000000000,
    0b100000000000000000000000000000000,
    0b1000000000000000000000000000000000,
    0b10000000000000000000000000000000000,
    0b100000000000000000000000000000000000,
    0b1000000000000000000000000000000000000,
    0b10000000000000000000000000000000000000,
    0b100000000000000000000000000000000000000,
    0b1000000000000000000000000000000000000000,
    0b10000000000000000000000000000000000000000,
    0b100000000000000000000000000000000000000000,
    0b1000000000000000000000000000000000000000000,
    0b10000000000000000000000000000000000000000000,
    0b100000000000000000000000000000000000000000000,
    0b1000000000000000000000000000000000000000000000,
    0b10000000000000000000000000000000000000000000000,
    0b100000000000000000000000000000000000000000000000,
    0b1000000000000000000000000000000000000000000000000,
    0b10000000000000000000000000000000000000000000000000,
    0b100000000000000000000000000000000000000000000000000,
    0b1000000000000000000000000000000000000000000000000000,
    0b10000000000000000000000000000000000000000000000000000,
    0b100000000000000000000000000000000000000000000000000000,
    0b1000000000000000000000000000000000000000000000000000000,
    0b10000000000000000000000000000000000000000000000000000000,
    0b100000000000000000000000000000000000000000000000000000000,
    0b1000000000000000000000000000000000000000000000000000000000,
    0b10000000000000000000000000000000000000000000000000000000000,
    0b100000000000000000000000000000000000000000000000000000000000,
    0b1000000000000000000000000000000000000000000000000000000000000,
    0b10000000000000000000000000000000000000000000000000000000000000,
    0b100000000000000000000000000000000000000000000000000000000000000,
    0b1000000000000000000000000000000000000000000000000000000000000000,
];

/// The squares of file `file` (`0` for file a).
pub open spec fn file_squares(file: int) -> Set<int> {
    Set::new(|i: int| on_board(i) && file_of(i) == file)
}

/// The squares of rank `rank` (`0` for rank 1).
pub open spec fn rank_squares(rank: int) -> Set<int> {
    Set::new(|i: int| on_board(i) && rank_of(i) == rank)
}

/// The outermost ring of the board: ranks 1 and 8 and files a and h.
pub open spec fn border_squares() -> Set<int> {
    Set::new(
        |i: int|
            on_board(i) && (rank_of(i) == 0 || rank_of(i) == 7 || file_of(i) == 0 || file_of(i)
                == 7),
    )
}

/// The long diagonal from a1 to h8.
pub open spec fn diagonal_squares() -> Set<int> {
    Set::new(|i: int| on_board(i) && file_of(i) == rank_of(i))
}

/// The long diagonal from h1 to a8.
pub open spec fn antidiagonal_squares() -> Set<int> {
    Set::new(|i: int| on_board(i) && file_of(i) + rank_of(i) == 7)
}

/// The light squares: those whose file and rank add up to an odd number (a1
/// is dark).
pub open spec fn light_squares() -> Set<int> {
    Set::new(|i: int| on_board(i) && (file_of(i) + rank_of(i)) % 2 == 1)
}

/// The dark squares: those whose file and rank add up to an even number.
pub open spec fn dark_squares() -> Set<int> {
    Set::new(|i: int| on_board(i) && (file_of(i) + rank_of(i)) % 2 == 0)
}

/// Which bits each constant has set.
pub proof fn lemma_mask_bit(i: u64)
    by (bit_vector)
    requires
        i < 64,
    ensures
        bit_at(A_FILE, i) == (i % 8 == 0),
        bit_at(B_FILE, i) == (i % 8 == 1),
        bit_at(C_FILE, i) == (i % 8 == 2),
        bit_at(D_FILE, i) == (i % 8 == 3),
        bit_at(E_FILE, i) == (i % 8 == 4),
        bit_at(F_FILE, i) == (i % 8 == 5),
        bit_at(G_FILE, i) == (i % 8 == 6),
        bit_at(H_FILE, i) == (i % 8 == 7),
        bit_at(RANK_1, i) == (i / 8 == 0),
        bit_at(RANK_2, i) == (i / 8 == 1),
        bit_at(RANK_3, i) == (i / 8 == 2),
        bit_at(RANK_4, i) == (i / 8 == 3),
        bit_at(RANK_5, i) == (i / 8 == 4),
        bit_at(RANK_6, i) == (i / 8 == 5),
        bit_at(RANK_7, i) == (i / 8 == 6),
        bit_at(RANK_8, i) == (i / 8 == 7),
        bit_at(BORDER, i) == (i / 8 == 0 || i / 8 == 7 || i % 8 == 0 || i % 8 == 7),
        bit_at(A1_H8_DIAGONAL, i) == (i % 8 == i / 8),
        bit_at(H1_A8_DIAGONAL, i) == (i % 8 + i / 8 == 7),
        bit_at(LIGHT_SQUARES, i) == (((i % 8 + i / 8) as u64) % 2 == 1),
        bit_at(DARK_SQUARES, i) == (((i % 8 + i / 8) as u64) % 2 == 0),
{
}

/// Each constant is the set of squares that its name says.
pub proof fn lemma_mask_squares()
    ensures
        squares_of(A_FILE) == file_squares(0),
        squares_of(B_FILE) == file_squares(1),
        squares_of(C_FILE) == file_squares(2),
        squares_of(D_FILE) == file_squares(3),
        squares_of(E_FILE) == file_squares(4),
        squares_of(F_FILE) == file_squares(5),
        squares_of(G_FILE) == file_squares(6),
        squares_of(H_FILE) == file_squares(7),
        squares_of(RANK_1) == rank_squares(0),
        squares_of(RANK_2) == rank_squares(1),
        squares_of(RANK_3) == rank_squares(2),
        squares_of(RANK_4) == rank_squares(3),
        squares_of(RANK_5) == rank_squares(4),
        squares_of(RANK_6) == rank_squares(5),
        squares_of(RANK_7) == rank_squares(6),
        squares_of(RANK_8) == rank_squares(7),
        squares_of(BORDER) == border_squares(),
        squares_of(A1_H8_DIAGONAL) == diagonal_squares(),
        squares_of(H1_A8_DIAGONAL) == antidiagonal_squares(),
        squares_of(LIGHT_SQUARES) == light_squares(),
        squares_of(DARK_SQUARES) == dark_squares(),
        squares_of(EMPTY) == Set::<int>::empty(),
        squares_of(FULL) == all_squares(),
{
    assert forall|i: int| on_board(i) implies {
        &&& bit_at(A_FILE, i as u64) == (file_of(i) == 0)
        &&& bit_at(B_FILE, i as u64) == (file_of(i) == 1)
        &&& bit_at(C_FILE, i as u64) == (file_of(i) == 2)
        &&& bit_at(D_FILE, i as u64) == (file_of(i) == 3)
        &&& bit_at(E_FILE, i as u64) == (file_of(i) == 4)
        &&& bit_at(F_FILE, i as u64) == (file_of(i) == 5)
        &&& bit_at(G_FILE, i as u64) == (file_of(i) == 6)
        &&& bit_at(H_FILE, i as u64) == (file_of(i) == 7)
        &&& bit_at(RANK_1, i as u64) == (rank_of(i) == 0)
        &&& bit_at(RANK_2, i as u64) == (rank_of(i) == 1)
        &&& bit_at(RANK_3, i as u64) == (rank_of(i) == 2)
        &&& bit_at(RANK_4, i as u64) == (rank_of(i) == 3)
        &&& bit_at(RANK_5, i as u64) == (rank_of(i) == 4)
        &&& bit_at(RANK_6, i as u64) == (rank_of(i) == 5)
        &&& bit_at(RANK_7, i as u64) == (rank_of(i) == 6)
        &&& bit_at(RANK_8, i as u64) == (rank_of(i) == 7)
        &&& bit_at(BORDER, i as u64) == border_squares().contains(i)
        &&& bit_at(A1_H8_DIAGONAL, i as u64) == (file_of(i) == rank_of(i))
        &&& bit_at(H1_A8_DIAGONAL, i as u64) == (file_of(i) + rank_of(i) == 7)
        &&& bit_at(LIGHT_SQUARES, i as u64) == ((file_of(i) + rank_of(i)) % 2 == 1)
        &&& bit_at(DARK_SQUARES, i as u64) == ((file_of(i) + rank_of(i)) % 2 == 0)
    } by {
        lemma_mask_bit(i as u64);
    }
    assert(squares_of(A_FILE) =~= file_squares(0));
    assert(squares_of(B_FILE) =~= file_squares(1));
    assert(squares_of(C_FILE) =~= file_squares(2));
    assert(squares_of(D_FILE) =~= file_squares(3));
    assert(squares_of(E_FILE) =~= file_squares(4));
    assert(squares_of(F_FILE) =~= file_squares(5));
    assert(squares_of(G_FILE) =~= file_squares(6));
    assert(squares_of(H_FILE) =~= file_squares(7));
    assert(squares_of(RANK_1) =~= rank_squares(0));
    assert(squares_of(RANK_2) =~= rank_squares(1));
    assert(squares_of(RANK_3) =~= rank_squares(2));
    assert(squares_of(RANK_4) =~= rank_squares(3));
    assert(squares_of(RANK_5) =~= rank_squares(4));
    assert(squares_of(RANK_6) =~= rank_squares(5));
    assert(squares_of(RANK_7) =~= rank_squares(6));
    assert(squares_of(RANK_8) =~= rank_squares(7));
    assert(squares_of(BORDER) =~= border_squares());
    assert(squares_of(A1_H8_DIAGONAL) =~= diagonal_squares());
    assert(squares_of(H1_A8_DIAGONAL) =~= antidiagonal_squares());
    assert(squares_of(LIGHT_SQUARES) =~= light_squares());
    assert(squares_of(DARK_SQUARES) =~= dark_squares());
    lemma_squares_of_extremes(0);
}

/// The words with a single bit, written out.
proof fn lemma_single_bit_patterns()
    by (bit_vector)
    ensures
        1u64 << 0 == 0b1,
        1u64 << 1 == 0b10,
        1u64 << 2 == 0b100,
        1u64 << 3 == 0b1000,
        1u64 << 4 == 0b10000,
        1u64 << 5 == 0b100000,
        1u64 << 6 == 0b1000000,
        1u64 << 7 == 0b10000000,
        1u64 << 8 == 0b100000000,
        1u64 << 9 == 0b1000000000,
        1u64 << 10 == 0b10000000000,
        1u64 << 11 == 0b100000000000,
        1u64 << 12 == 0b1000000000000,
        1u64 << 13 == 0b10000000000000,
        1u64 << 14 == 0b100000000000000,
        1u64 << 15 == 0b1000000000000000,
        1u64 << 16 == 0b10000000000000000,
        1u64 << 17 == 0b100000000000000000,
        1u64 << 18 == 0b1000000000000000000,
        1u64 << 19 == 0b10000000000000000000,
        1u64 << 20 == 0b100000000000000000000,
        1u64 << 21 == 0b1000000000000000000000,
        1u64 << 22 == 0b10000000000000000000000,
        1u64 << 23 == 0b100000000000000000000000,
        1u64 << 24 == 0b1000000000000000000000000,
        1u64 << 25 == 0b10000000000000000000000000,
        1u64 << 26 == 0b100000000000000000000000000,
        1u64 << 27 == 0b1000000000000000000000000000,
        1u64 << 28 == 0b10000000000000000000000000000,
        1u64 << 29 == 0b100000000000000000000000000000,
        1u64 << 30 == 0b1000000000000000000000000000000,
        1u64 << 31 == 0b10000000000000000000000000000000,
        1u64 << 32 == 0b100000000000000000000000000000000,
        1u64 << 33 == 0b1000000000000000000000000000000000,
        1u64 << 34 == 0b10000000000000000000000000000000000,
        1u64 << 35 == 0b100000000000000000000000000000000000,
        1u64 << 36 == 0b1000000000000000000000000000000000000,
        1u64 << 37 == 0b10000000000000000000000000000000000000,
        1u64 << 38 == 0b100000000000000000000000000000000000000,
        1u64 << 39 == 0b1000000000000000000000000000000000000000,
        1u64 << 40 == 0b10000000000000000000000000000000000000000,
        1u64 << 41 == 0b100000000000000000000000000000000000000000,
        1u64 << 42 == 0b1000000000000000000000000000000000000000000,
        1u64 << 43 == 0b10000000000000000000000000000000000000000000,
        1u64 << 44 == 0b100000000000000000000000000000000000000000000,
        1u64 << 45 == 0b1000000000000000000000000000000000000000000000,
        1u64 << 46 == 0b10000000000000000000000000000000000000000000000,
        1u64 << 47 == 0b100000000000000000000000000000000000000000000000,
        1u64 << 48 == 0b1000000000000000000000000000000000000000000000000,
        1u64 << 49 == 0b10000000000000000000000000000000000000000000000000,
        1u64 << 50 == 0b100000000000000000000000000000000000000000000000000,
        1u64 << 51 == 0b1000000000000000000000000000000000000000000000000000,
        1u64 << 52 == 0b10000000000000000000000000000000000000000000000000000,
        1u64 << 53 == 0b100000000000000000000000000000000000000000000000000000,
        1u64 << 54 == 0b1000000000000000000000000000000000000000000000000000000,
        1u64 << 55 == 0b10000000000000000000000000000000000000000000000000000000,
        1u64 << 56 == 0b100000000000000000000000000000000000000000000000000000000,
        1u64 << 57 == 0b1000000000000000000000000000000000000000000000000000000000,
        1u64 << 58 == 0b10000000000000000000000000000000000000000000000000000000000,
        1u64 << 59 == 0b100000000000000000000000000000000000000000000000000000000000,
        1u64 << 60 == 0b1000000000000000000000000000000000000000000000000000000000000,
        1u64 << 61 == 0b10000000000000000000000000000000000000000000000000000000000000,
        1u64 << 62 == 0b100000000000000000000000000000000000000000000000000000000000000,
        1u64 << 63 == 0b1000000000000000000000000000000000000000000000000000000000000000,
{
}

/// Entry `i` of the single-square table is the board with square `i` alone.
pub proof fn lemma_square_array(i: int)
    requires
        on_board(i),
    ensures
        SQUARE_ARRAY[i] == 1u64 << (i as u64),
        squares_of(SQUARE_ARRAY[i]) == set![i],
{
    lemma_single_bit_patterns();
    if i == 0 {
        assert(SQUARE_ARRAY[0] == 1u64 << 0);
    }
    if i == 1 {
        assert(SQUARE_ARRAY[1] == 1u64 << 1);
    }
    if i == 2 {
        assert(SQUARE_ARRAY[2] == 1u64 << 2);
    }
    if i == 3 {
        assert(SQUARE_ARRAY[3] == 1u64 << 3);
    }
    if i == 4 {
        assert(SQUARE_ARRAY[4] == 1u64 << 4);
    }
    if i == 5 {
        assert(SQUARE_ARRAY[5] == 1u64 << 5);
    }
    if i == 6 {
        assert(SQUARE_ARRAY[6] == 1u64 << 6);
    }
    if i == 7 {
        assert(SQUARE_ARRAY[7] == 1u64 << 7);
    }
    if i == 8 {
        assert(SQUARE_ARRAY[8] == 1u64 << 8);
    }
    if i == 9 {
        assert(SQUARE_ARRAY[9] == 1u64 << 9);
    }
    if i == 10 {
        assert(SQUARE_ARRAY[10] == 1u64 << 10);
    }
    if i == 11 {
        assert(SQUARE_ARRAY[11] == 1u64 << 11);
    }
    if i == 12 {
        assert(SQUARE_ARRAY[12] == 1u64 << 12);
    }
    if i == 13 {
        assert(SQUARE_ARRAY[13] == 1u64 << 13);
    }
    if i == 14 {
        assert(SQUARE_ARRAY[14] == 1u64 << 14);
    }
    if i == 15 {
        assert(SQUARE_ARRAY[15] == 1u64 << 15);
    }
    if i == 16 {
        assert(SQUARE_ARRAY[16] == 1u64 << 16);
    }
    if i == 17 {
        assert(SQUARE_ARRAY[17] == 1u64 << 17);
    }
    if i == 18 {
        assert(SQUARE_ARRAY[18] == 1u64 << 18);
    }
    if i == 19 {
        assert(SQUARE_ARRAY[19] == 1u64 << 19);
    }
    if i == 20 {
        assert(SQUARE_ARRAY[20] == 1u64 << 20);
    }
    if i == 21 {
        assert(SQUARE_ARRAY[21] == 1u64 << 21);
    }
    if i == 22 {
        assert(SQUARE_ARRAY[22] == 1u64 << 22);
    }
    if i == 23 {
        assert(SQUARE_ARRAY[23] == 1u64 << 23);
    }
    if i == 24 {
        assert(SQUARE_ARRAY[24] == 1u64 << 24);
    }
    if i == 25 {
        assert(SQUARE_ARRAY[25] == 1u64 << 25);
    }
    if i == 26 {
        assert(SQUARE_ARRAY[26] == 1u64 << 26);
    }
    if i == 27 {
        assert(SQUARE_ARRAY[27] == 1u64 << 27);
    }
    if i == 28 {
        assert(SQUARE_ARRAY[28] == 1u64 << 28);
    }
    if i == 29 {
        assert(SQUARE_ARRAY[29] == 1u64 << 29);
    }
    if i == 30 {
        assert(SQUARE_ARRAY[30] == 1u64 << 30);
    }
    if i == 31 {
        assert(SQUARE_ARRAY[31] == 1u64 << 31);
    }
    if i == 32 {
        assert(SQUARE_ARRAY[32] == 1u64 << 32);
    }
    if i == 33 {
        assert(SQUARE_ARRAY[33] == 1u64 << 33);
    }
    if i == 34 {
        assert(SQUARE_ARRAY[34] == 1u64 << 34);
    }
    if i == 35 {
        assert(SQUARE_ARRAY[35] == 1u64 << 35);
    }
    if i == 36 {
        assert(SQUARE_ARRAY[36] == 1u64 << 36);
    }
    if i == 37 {
        assert(SQUARE_ARRAY[37] == 1u64 << 37);
    }
    if i == 38 {
        assert(SQUARE_ARRAY[38] == 1u64 << 38);
    }
    if i == 39 {
        assert(SQUARE_ARRAY[39] == 1u64 << 39);
    }
    if i == 40 {
        assert(SQUARE_ARRAY[40] == 1u64 << 40);
    }
    if i == 41 {
        assert(SQUARE_ARRAY[41] == 1u64 << 41);
    }
    if i == 42 {
        assert(SQUARE_ARRAY[42] == 1u64 << 42);
    }
    if i == 43 {
        assert(SQUARE_ARRAY[43] == 1u64 << 43);
    }
    if i == 44 {
        assert(SQUARE_ARRAY[44] == 1u64 << 44);
    }
    if i == 45 {
        assert(SQUARE_ARRAY[45] == 1u64 << 45);
    }
    if i == 46 {
        assert(SQUARE_ARRAY[46] == 1u64 << 46);
    }
    if i == 47 {
        assert(SQUARE_ARRAY[47] == 1u64 << 47);
    }
    if i == 48 {
        assert(SQUARE_ARRAY[48] == 1u64 << 48);
    }
    if i == 49 {
        assert(SQUARE_ARRAY[49] == 1u64 << 49);
    }
    if i == 50 {
        assert(SQUARE_ARRAY[50] == 1u64 << 50);
    }
    if i == 51 {
        assert(SQUARE_ARRAY[51] == 1u64 << 51);
    }
    if i == 52 {
        assert(SQUARE_ARRAY[52] == 1u64 << 52);
    }
    if i == 53 {
        assert(SQUARE_ARRAY[53] == 1u64 << 53);
    }
    if i == 54 {
        assert(SQUARE_ARRAY[54] == 1u64 << 54);
    }
    if i == 55 {
        assert(SQUARE_ARRAY[55] == 1u64 << 55);
    }
    if i == 56 {
        assert(SQUARE_ARRAY[56] == 1u64 << 56);
    }
    if i == 57 {
        assert(SQUARE_ARRAY[57] == 1u64 << 57);
    }
    if i == 58 {
        assert(SQUARE_ARRAY[58] == 1u64 << 58);
    }
    if i == 59 {
        assert(SQUARE_ARRAY[59] == 1u64 << 59);
    }
    if i == 60 {
        assert(SQUARE_ARRAY[60] == 1u64 << 60);
    }
    if i == 61 {
        assert(SQUARE_ARRAY[61] == 1u64 << 61);
    }
    if i == 62 {
        assert(SQUARE_ARRAY[62] == 1u64 << 62);
    }
    if i == 63 {
        assert(SQUARE_ARRAY[63] == 1u64 << 63);
    }
    lemma_squares_of_single(i as u64);
}

/// The constant for file `file`.
pub open spec fn file_mask(file: int) -> u64 {
    if file == 0 {
        A_FILE
    } else if file == 1 {
        B_FILE
    } else if file == 2 {
        C_FILE
    } else if file == 3 {
        D_FILE
    } else if file == 4 {
        E_FILE
    } else if file == 5 {
        F_FILE
    } else if file == 6 {
        G_FILE
    } else {
        H_FILE
    }
}

/// The constant for rank `rank`.
pub open spec fn rank_mask(rank: int) -> u64 {
    if rank == 0 {
        RANK_1
    } else if rank == 1 {
        RANK_2
    } else if rank == 2 {
        RANK_3
    } else if rank == 3 {
        RANK_4
    } else if rank == 4 {
        RANK_5
    } else if rank == 5 {
        RANK_6
    } else if rank == 6 {
        RANK_7
    } else {
        RANK_8
    }
}

/// A file has eight squares.
pub proof fn lemma_file_squares_len(file: int)
    requires
        0 <= file < 8,
    ensures
        file_squares(file).len() == 8,
{
    let f = file_squares(file);
    lemma_board_set_len(f);
    lemma_count_rank(f, 0);
    lemma_count_rank(f, 1);
    lemma_count_rank(f, 2);
    lemma_count_rank(f, 3);
    lemma_count_rank(f, 4);
    lemma_count_rank(f, 5);
    lemma_count_rank(f, 6);
    lemma_count_rank(f, 7);
    assert(count_below(f, 0) == 0);
}

/// A rank has eight squares.
pub proof fn lemma_rank_squares_len(rank: int)
    requires
        0 <= rank < 8,
    ensures
        rank_squares(rank).len() == 8,
{
    let r = rank_squares(rank);
    lemma_board_set_len(r);
    lemma_count_rank(r, 0);
    lemma_count_rank(r, 1);
    lemma_count_rank(r, 2);
    lemma_count_rank(r, 3);
    lemma_count_rank(r, 4);
    lemma_count_rank(r, 5);
    lemma_count_rank(r, 6);
    lemma_count_rank(r, 7);
    assert(count_below(r, 0) == 0);
}

/// Every file mask and every rank mask holds exactly the eight squares of its
/// file or rank.
pub proof fn lemma_file_and_rank_masks(k: int)
    requires
        0 <= k < 8,
    ensures
        squares_of(file_mask(k)) == file_squares(k),
        squares_of(rank_mask(k)) == rank_squares(k),
        squares_of(file_mask(k)).len() == 8,
        squares_of(rank_mask(k)).len() == 8,
{
    lemma_mask_squares();
    lemma_file_squares_len(k);
    lemma_rank_squares_len(k);
}

/// No square lies on two files or on two ranks: distinct file masks are
/// disjoint, and so are distinct rank masks.
pub proof fn lemma_masks_disjoint(j: int, k: int)
    requires
        0 <= j < 8,
        0 <= k < 8,
        j != k,
    ensures
        squares_of(file_mask(j)).disjoint(squares_of(file_mask(k))),
        squares_of(rank_mask(j)).disjoint(squares_of(rank_mask(k))),
{
    lemma_mask_squares();
}

/// The eight file masks together are the full board, and so are the eight
/// rank masks.
pub proof fn lemma_masks_cover()
    ensures
        squares_of(
            A_FILE | B_FILE | C_FILE | D_FILE | E_FILE | F_FILE | G_FILE | H_FILE,
        ) == all_squares(),
        squares_of(
            RANK_1 | RANK_2 | RANK_3 | RANK_4 | RANK_5 | RANK_6 | RANK_7 | RANK_8,
        ) == all_squares(),
        file_squares(0).union(file_squares(1)).union(file_squares(2)).union(
            file_squares(3),
        ).union(file_squares(4)).union(file_squares(5)).union(file_squares(6)).union(
            file_squares(7),
        ) == all_squares(),
        rank_squares(0).union(rank_squares(1)).union(rank_squares(2)).union(
            rank_squares(3),
        ).union(rank_squares(4)).union(rank_squares(5)).union(rank_squares(6)).union(
            rank_squares(7),
        ) == all_squares(),
{
    assert(A_FILE | B_FILE | C_FILE | D_FILE | E_FILE | F_FILE | G_FILE | H_FILE == FULL
        && RANK_1 | RANK_2 | RANK_3 | RANK_4 | RANK_5 | RANK_6 | RANK_7 | RANK_8 == FULL)
        by (bit_vector);
    lemma_mask_squares();
    assert(file_squares(0).union(file_squares(1)).union(file_squares(2)).union(
        file_squares(3),
    ).union(file_squares(4)).union(file_squares(5)).union(file_squares(6)).union(
        file_squares(7),
    ) =~= all_squares());
    assert(rank_squares(0).union(rank_squares(1)).union(rank_squares(2)).union(
        rank_squares(3),
    ).union(rank_squares(4)).union(rank_squares(5)).union(rank_squares(6)).union(
        rank_squares(7),
    ) =~= all_squares());
}

/// The light and the dark squares share no square, together are the full
/// board, are each the rest of the board of the other, and are 32 each.
pub proof fn lemma_colour_masks()
    ensures
        squares_of(LIGHT_SQUARES).disjoint(squares_of(DARK_SQUARES)),
        squares_of(LIGHT_SQUARES).union(squares_of(DARK_SQUARES)) == all_squares(),
        squares_of(LIGHT_SQUARES) == vacant(squares_of(DARK_SQUARES)),
        squares_of(DARK_SQUARES) == vacant(squares_of(LIGHT_SQUARES)),
        LIGHT_SQUARES == !DARK_SQUARES,
        squares_of(LIGHT_SQUARES).len() == 32,
        squares_of(DARK_SQUARES).len() == 32,
{
    assert(LIGHT_SQUARES == !DARK_SQUARES) by (bit_vector);
    lemma_mask_squares();
    let l = light_squares();
    let d = dark_squares();
    assert(l.union(d) =~= all_squares());
    assert(l =~= vacant(d));
    assert(d =~= vacant(l));
    lemma_board_set_len(l);
    lemma_count_rank(l, 0);
    lemma_count_rank(l, 1);
    lemma_count_rank(l, 2);
    lemma_count_rank(l, 3);
    lemma_count_rank(l, 4);
    lemma_count_rank(l, 5);
    lemma_count_rank(l, 6);
    lemma_count_rank(l, 7);
    assert(count_below(l, 0) == 0);
    lemma_vacant_len(l);
}

/// Each long diagonal has eight squares.
pub proof fn lemma_diagonal_masks()
    ensures
        squares_of(A1_H8_DIAGONAL).len() == 8,
        squares_of(H1_A8_DIAGONAL).len() == 8,
{
    lemma_mask_squares();
    let d = diagonal_squares();
    let a = antidiagonal_squares();
    lemma_board_set_len(d);
    lemma_board_set_len(a);
    lemma_count_rank(d, 0);
    lemma_count_rank(d, 1);
    lemma_count_rank(d, 2);
    lemma_count_rank(d, 3);
    lemma_count_rank(d, 4);
    lemma_count_rank(d, 5);
    lemma_count_rank(d, 6);
    lemma_count_rank(d, 7);
    lemma_count_rank(a, 0);
    lemma_count_rank(a, 1);
    lemma_count_rank(a, 2);
    lemma_count_rank(a, 3);
    lemma_count_rank(a, 4);
    lemma_count_rank(a, 5);
    lemma_count_rank(a, 6);
    lemma_count_rank(a, 7);
    assert(count_below(d, 0) == 0);
    assert(count_below(a, 0) == 0);
}

/// The border is ranks 1 and 8 and files a and h together.
pub proof fn lemma_border_mask()
    ensures
        BORDER == RANK_1 | RANK_8 | A_FILE | H_FILE,
        squares_of(BORDER) == rank_squares(0).union(rank_squares(7)).union(
            file_squares(0),
        ).union(file_squares(7)),
{
    assert(BORDER == RANK_1 | RANK_8 | A_FILE | H_FILE) by (bit_vector);
    lemma_mask_squares();
    assert(border_squares() =~= rank_squares(0).union(rank_squares(7)).union(
        file_squares(0),
    ).union(file_squares(7)));
}

/// The empty board has no square and the full board has all 64.
pub proof fn lemma_extreme_masks()
    ensures
        squares_of(EMPTY) == Set::<int>::empty(),
        squares_of(FULL) == all_squares(),
        squares_of(EMPTY).len() == 0,
        squares_of(FULL).len() == 64,
{
    lemma_mask_squares();
    lemma_all_squares();
}

} // verus!

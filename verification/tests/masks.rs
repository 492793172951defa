use chess_bitboard::bitboard::BitBoard;
use chess_bitboard::masks::{
    A1_H8_DIAGONAL, A_FILE, BORDER, B_FILE, C_FILE, DARK_SQUARES, D_FILE, EMPTY, E_FILE, FULL,
    F_FILE, G_FILE, H1_A8_DIAGONAL, H_FILE, LIGHT_SQUARES, RANK_1, RANK_2, RANK_3, RANK_4, RANK_5,
    RANK_6, RANK_7, RANK_8, SQUARE_ARRAY,
};
use chess_bitboard::square::Square;

const FILES: [u64; 8] = [A_FILE, B_FILE, C_FILE, D_FILE, E_FILE, F_FILE, G_FILE, H_FILE];
const RANKS: [u64; 8] = [RANK_1, RANK_2, RANK_3, RANK_4, RANK_5, RANK_6, RANK_7, RANK_8];

#[test]
fn file_and_rank_masks_have_eight_squares() {
    for &mask in FILES.iter().chain(RANKS.iter()) {
        assert_eq!(BitBoard::from(mask).population(), 8);
    }
}

#[test]
fn file_masks_partition_the_board() {
    let mut all = BitBoard::from(EMPTY);
    for (i, &a) in FILES.iter().enumerate() {
        for &b in FILES[i + 1..].iter() {
            assert!(!BitBoard::from(a).check(b));
        }
        all = all | BitBoard::from(a);
    }
    assert!(all.is_full());
}

#[test]
fn rank_masks_partition_the_board() {
    let mut all = BitBoard::from(EMPTY);
    for (i, &a) in RANKS.iter().enumerate() {
        for &b in RANKS[i + 1..].iter() {
            assert!(!BitBoard::from(a).check(b));
        }
        all = all | BitBoard::from(a);
    }
    assert!(all.is_full());
}

#[test]
fn masks_hold_the_squares_of_their_names() {
    for i in 0u8..64 {
        let square = Square::from_index(i).unwrap();
        let file = (i % 8) as usize;
        let rank = (i / 8) as usize;
        for k in 0..8 {
            assert_eq!(BitBoard::from(FILES[k]).check(square), k == file);
            assert_eq!(BitBoard::from(RANKS[k]).check(square), k == rank);
        }
        assert_eq!(BitBoard::from(A1_H8_DIAGONAL).check(square), file == rank);
        assert_eq!(BitBoard::from(H1_A8_DIAGONAL).check(square), file + rank == 7);
        assert_eq!(BitBoard::from(LIGHT_SQUARES).check(square), (file + rank) % 2 == 1);
        assert_eq!(BitBoard::from(DARK_SQUARES).check(square), (file + rank) % 2 == 0);
    }
}

#[test]
fn colour_masks_split_the_board() {
    let light = BitBoard::from(LIGHT_SQUARES);
    let dark = BitBoard::from(DARK_SQUARES);
    assert!(!light.check(dark));
    assert!((light | dark).is_full());
    assert_eq!(light.population(), 32);
    assert_eq!(dark.population(), 32);
    assert_eq!(!light, dark);
    assert!(dark.check(Square::A1));
    assert!(light.check(Square::H1));
}

#[test]
fn diagonals_have_eight_squares() {
    assert_eq!(BitBoard::from(A1_H8_DIAGONAL).population(), 8);
    assert_eq!(BitBoard::from(H1_A8_DIAGONAL).population(), 8);
    assert!(BitBoard::from(A1_H8_DIAGONAL).check(Square::A1));
    assert!(BitBoard::from(A1_H8_DIAGONAL).check(Square::H8));
    assert!(BitBoard::from(H1_A8_DIAGONAL).check(Square::H1));
    assert!(BitBoard::from(H1_A8_DIAGONAL).check(Square::A8));
}

#[test]
fn border_is_the_outer_ranks_and_files() {
    assert_eq!(BORDER, RANK_1 | RANK_8 | A_FILE | H_FILE);
    assert_eq!(BitBoard::from(BORDER).population(), 28);
}

#[test]
fn literal_patterns() {
    assert_eq!(A_FILE, 0x0101010101010101);
    assert_eq!(RANK_1, 0x00000000000000FF);
    assert_eq!(A1_H8_DIAGONAL, 0x8040201008040201);
    assert_eq!(H1_A8_DIAGONAL, 0x0102040810204080);
    assert_eq!(EMPTY, 0);
    assert_eq!(FULL, u64::MAX);
}

#[test]
fn square_table_agrees_with_single_square_boards() {
    for i in 0u8..64 {
        let square = Square::from_index(i).unwrap();
        assert_eq!(SQUARE_ARRAY[i as usize], 1u64 << i);
        assert_eq!(BitBoard::from(SQUARE_ARRAY[i as usize]), BitBoard::from(square));
    }
}

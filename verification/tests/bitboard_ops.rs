use chess_bitboard::bitboard::BitBoard;
use chess_bitboard::masks::{A_FILE, BORDER, EMPTY, FULL, H_FILE, RANK_1, RANK_8};
use chess_bitboard::square::Square;

fn all_squares() -> Vec<Square> {
    (0u8..64).map(|i| Square::from_index(i).unwrap()).collect()
}

const SAMPLES: [u64; 12] = [
    0,
    1,
    0x8000_0000_0000_0000,
    0xFFFF_FFFF_FFFF_FFFF,
    0x0123_4567_89AB_CDEF,
    0xFEDC_BA98_7654_3210,
    0x5555_5555_5555_5555,
    0xAAAA_AAAA_AAAA_AAAA,
    0x0000_0000_FFFF_0000,
    0x8100_0000_0000_0081,
    0x00FF_00FF_00FF_00FF,
    0xDEAD_BEEF_CAFE_F00D,
];

#[test]
fn single_square_board_has_one_bit_at_its_index() {
    for (i, square) in all_squares().into_iter().enumerate() {
        let board = BitBoard::from(square);
        assert_eq!(board.population(), 1);
        assert_eq!(board.trailing_zeros(), i as u32);
        assert_eq!(board.leading_zeros(), 63 - i as u32);
        assert_eq!(board, BitBoard::from(1u64 << i));
        assert_eq!(square.index() as usize, i);
    }
}

#[test]
fn square_index_round_trip() {
    for i in 0u8..64 {
        assert_eq!(Square::from_index(i).unwrap().index(), i);
    }
    assert_eq!(Square::from_index(64), None);
    assert_eq!(Square::from_index(255), None);
    assert_eq!(Square::A1.index(), 0);
    assert_eq!(Square::H1.index(), 7);
    assert_eq!(Square::A8.index(), 56);
    assert_eq!(Square::H8.index(), 63);
}

#[test]
fn board_from_list_of_squares() {
    let corners = [Square::A1, Square::H1, Square::A8, Square::H8];
    assert_eq!(BitBoard::from(&corners[..]), BitBoard::from(0x8100_0000_0000_0081u64));
    let none: [Square; 0] = [];
    assert_eq!(BitBoard::from(&none[..]), BitBoard::from(0u64));
    let repeated = [Square::E4, Square::E4, Square::D5];
    assert_eq!(BitBoard::from(&repeated[..]), BitBoard::from((1u64 << 28) | (1u64 << 35)));
}

#[test]
fn set_adds_squares() {
    let board = BitBoard::from(RANK_1);
    assert_eq!(board.set(Square::A2), BitBoard::from(0x1FFu64));
    assert_eq!(board.set(Square::A1), board);
    assert_eq!(board.set(BitBoard::from(RANK_8)), BitBoard::from(RANK_1 | RANK_8));
    assert_eq!(board.set(0xFF00u64), BitBoard::from(0xFFFFu64));
    let pair = [Square::A8, Square::H8];
    assert_eq!(board.set(&pair[..]), BitBoard::from(0x8100_0000_0000_00FFu64));
}

#[test]
fn unset_removes_squares() {
    let board = BitBoard::from(RANK_1);
    assert_eq!(board.unset(Square::A1), BitBoard::from(0xFEu64));
    assert_eq!(board.unset(Square::A2), board);
    assert_eq!(board.unset(BitBoard::from(A_FILE)), BitBoard::from(0xFEu64));
    assert_eq!(board.unset(FULL), BitBoard::from(EMPTY));
}

#[test]
fn check_tests_for_a_common_square_not_for_a_subset() {
    let board = BitBoard::from(RANK_1);
    assert!(board.check(Square::A1));
    assert!(board.check(Square::H1));
    assert!(!board.check(Square::A2));
    assert!(board.check(BitBoard::from(A_FILE)));
    assert!(!board.check(BitBoard::from(RANK_8)));
    assert!(!board.check(EMPTY));
    assert!(!BitBoard::from(EMPTY).check(FULL));
}

#[test]
fn empty_and_full() {
    assert!(BitBoard::from(EMPTY).is_empty());
    assert!(!BitBoard::from(EMPTY).is_full());
    assert!(BitBoard::from(FULL).is_full());
    assert!(!BitBoard::from(FULL).is_empty());
    assert!(!BitBoard::from(1u64).is_empty());
    assert!(!BitBoard::from(FULL - 1).is_full());
    assert_eq!(BitBoard::from(FULL).population(), 64);
    assert_eq!(BitBoard::from(EMPTY).population(), 0);
    assert_eq!(BitBoard::default(), BitBoard::from(EMPTY));
}

#[test]
fn border_holds_the_outer_ring_only() {
    for square in all_squares() {
        let i = square.index();
        let file = i % 8;
        let rank = i / 8;
        let outer = file == 0 || file == 7 || rank == 0 || rank == 7;
        assert_eq!(BitBoard::from(square).is_border(), outer);
    }
    assert!(!BitBoard::from(Square::D4).is_border());
    assert!(!BitBoard::from(Square::E5).is_border());
    assert!(BitBoard::from(Square::A1).is_border());
    assert!(BitBoard::from(Square::H5).is_border());
    assert!(!BitBoard::from(EMPTY).is_border());
    assert!(!BitBoard::from(!BORDER).is_border());
    assert!(BitBoard::from(!BORDER).set(Square::A4).is_border());
}

#[test]
fn population_counts_bits() {
    assert_eq!(BitBoard::from(0x0123_4567_89AB_CDEFu64).population(), 32);
    assert_eq!(BitBoard::from(0x8100_0000_0000_0081u64).population(), 4);
    assert_eq!(BitBoard::from(0xDEAD_BEEF_CAFE_F00Du64).population(), 42);
    assert_eq!(BitBoard::from(A_FILE).population(), 8);
}

#[test]
fn parallel_count_agrees_with_population() {
    for &x in SAMPLES.iter() {
        let board = BitBoard::from(x);
        assert_eq!(board.swar_popcount() as u32, board.population());
    }
    for i in 0..64 {
        let board = BitBoard::from(u64::MAX >> i);
        assert_eq!(board.swar_popcount(), 64 - i as u8);
        let board = BitBoard::from(u64::MAX << i);
        assert_eq!(board.swar_popcount(), 64 - i as u8);
    }
    assert_eq!(BitBoard::from(0xDEAD_BEEF_CAFE_F00Du64).swar_popcount(), 42);
}

#[test]
fn population_of_board_and_complement_is_64() {
    for &x in SAMPLES.iter() {
        let board = BitBoard::from(x);
        assert_eq!(board.population() + (!board).population(), 64);
    }
}

#[test]
fn leading_and_trailing_zeros() {
    assert_eq!(BitBoard::from(EMPTY).leading_zeros(), 64);
    assert_eq!(BitBoard::from(EMPTY).trailing_zeros(), 64);
    assert_eq!(BitBoard::from(FULL).leading_zeros(), 0);
    assert_eq!(BitBoard::from(FULL).trailing_zeros(), 0);
    assert_eq!(BitBoard::from(0x0000_0100_0000_1000u64).leading_zeros(), 23);
    assert_eq!(BitBoard::from(0x0000_0100_0000_1000u64).trailing_zeros(), 12);
    assert_eq!(BitBoard::from(RANK_8).trailing_zeros(), 56);
    assert_eq!(BitBoard::from(RANK_1).leading_zeros(), 56);
}

#[test]
fn bitwise_operators() {
    let a = BitBoard::from(0b1100u64);
    let b = BitBoard::from(0b1010u64);
    assert_eq!(a & b, BitBoard::from(0b1000u64));
    assert_eq!(a | b, BitBoard::from(0b1110u64));
    assert_eq!(a ^ b, BitBoard::from(0b0110u64));
    assert_eq!(a - b, BitBoard::from(0b0100u64));
    assert_eq!(b - a, BitBoard::from(0b0010u64));
    assert_eq!(!a, BitBoard::from(!0b1100u64));
    assert_eq!(!BitBoard::from(EMPTY), BitBoard::from(FULL));
}

#[test]
fn assigning_operators() {
    let a = BitBoard::from(0b1100u64);
    let b = BitBoard::from(0b1010u64);
    let mut x = a;
    x &= b;
    assert_eq!(x, BitBoard::from(0b1000u64));
    let mut x = a;
    x |= b;
    assert_eq!(x, BitBoard::from(0b1110u64));
    let mut x = a;
    x ^= b;
    assert_eq!(x, BitBoard::from(0b0110u64));
    let mut x = a;
    x -= b;
    assert_eq!(x, BitBoard::from(0b0100u64));
    let mut x = a;
    x <<= BitBoard::from(2u64);
    assert_eq!(x, BitBoard::from(0b110000u64));
    let mut x = a;
    x >>= BitBoard::from(2u64);
    assert_eq!(x, BitBoard::from(0b11u64));
    let mut x = a;
    x <<= BitBoard::from(64u64);
    assert_eq!(x, BitBoard::from(EMPTY));
    let mut x = a;
    x >>= BitBoard::from(u64::MAX);
    assert_eq!(x, BitBoard::from(EMPTY));
}

#[test]
fn shifts_move_squares_and_drop_what_leaves() {
    let rank_1 = BitBoard::from(RANK_1);
    assert_eq!(rank_1 << BitBoard::from(8u64), BitBoard::from(0xFF00u64));
    assert_eq!(rank_1 << BitBoard::from(56u64), BitBoard::from(RANK_8));
    assert_eq!(rank_1 << BitBoard::from(60u64), BitBoard::from(0xF000_0000_0000_0000u64));
    assert_eq!(BitBoard::from(RANK_8) >> BitBoard::from(60u64), BitBoard::from(0xFu64));
    assert_eq!(rank_1 << BitBoard::from(0u64), rank_1);
    assert_eq!(rank_1 >> BitBoard::from(0u64), rank_1);
    assert_eq!(BitBoard::from(H_FILE) >> BitBoard::from(7u64), BitBoard::from(A_FILE));
}

#[test]
fn shift_by_64_or_more_gives_the_empty_board() {
    let full = BitBoard::from(FULL);
    assert_eq!(full << BitBoard::from(63u64), BitBoard::from(0x8000_0000_0000_0000u64));
    assert_eq!(full >> BitBoard::from(63u64), BitBoard::from(1u64));
    assert_eq!(full << BitBoard::from(64u64), BitBoard::from(EMPTY));
    assert_eq!(full >> BitBoard::from(64u64), BitBoard::from(EMPTY));
    assert_eq!(full << BitBoard::from(65u64), BitBoard::from(EMPTY));
    assert_eq!(full >> BitBoard::from(1u64 << 40), BitBoard::from(EMPTY));
    assert_eq!(full << BitBoard::from(u64::MAX), BitBoard::from(EMPTY));
}

#[test]
fn debug_picture_of_a_board() {
    let expected = "
        ┌────────┐
        │10000001│
        │00000000│
        │00000000│
        │00000000│
        │00001000│
        │00000000│
        │00000010│
        │11110000│
        └────────┘
        ";
    let board = BitBoard::from(0x8100_0000_0800_02F0u64);
    assert_eq!(board.to_string(), expected);
    let full = BitBoard::from(FULL).to_string();
    assert_eq!(full.matches('1').count(), 64);
    assert_eq!(full.matches('0').count(), 0);
    let file_a = BitBoard::from(A_FILE).to_string();
    assert_eq!(file_a.matches("│00000001│").count(), 8);
}

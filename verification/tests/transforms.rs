use chess_bitboard::bitboard::{BitBoard, BoardFlip, BoardRotate};
use chess_bitboard::masks::{
    A1_H8_DIAGONAL, A_FILE, B_FILE, G_FILE, H1_A8_DIAGONAL, H_FILE, RANK_1, RANK_2, RANK_7, RANK_8,
};
use chess_bitboard::square::Square;

const SAMPLES: [u64; 10] = [
    0,
    1,
    0xFFFF_FFFF_FFFF_FFFF,
    0x0123_4567_89AB_CDEF,
    0xFEDC_BA98_7654_3210,
    0x5555_5555_5555_5555,
    0x0000_0000_FFFF_0000,
    0x8100_0000_0000_0081,
    0x00FF_00FF_00FF_00FF,
    0xDEAD_BEEF_CAFE_F00D,
];

fn square(file: u8, rank: u8) -> Square {
    Square::from_index(rank * 8 + file).unwrap()
}

#[test]
fn vertical_flip_reverses_the_ranks() {
    assert_eq!(BitBoard::from(RANK_1).vertical_flip(), BitBoard::from(RANK_8));
    assert_eq!(BitBoard::from(RANK_2).vertical_flip(), BitBoard::from(RANK_7));
    assert_eq!(BitBoard::from(A_FILE).vertical_flip(), BitBoard::from(A_FILE));
    assert_eq!(
        BitBoard::from(0x0123_4567_89AB_CDEFu64).vertical_flip(),
        BitBoard::from(0xEFCD_AB89_6745_2301u64)
    );
    for file in 0..8 {
        for rank in 0..8 {
            assert_eq!(
                BitBoard::from(square(file, rank)).vertical_flip(),
                BitBoard::from(square(file, 7 - rank))
            );
        }
    }
}

#[test]
fn horizontal_flip_reverses_the_files() {
    assert_eq!(BitBoard::from(A_FILE).horizontal_flip(), BitBoard::from(H_FILE));
    assert_eq!(BitBoard::from(B_FILE).horizontal_flip(), BitBoard::from(G_FILE));
    assert_eq!(BitBoard::from(RANK_1).horizontal_flip(), BitBoard::from(RANK_1));
    assert_eq!(
        BitBoard::from(0x0123_4567_89AB_CDEFu64).horizontal_flip(),
        BitBoard::from(0x80C4_A2E6_91D5_B3F7u64)
    );
    for file in 0..8 {
        for rank in 0..8 {
            assert_eq!(
                BitBoard::from(square(file, rank)).horizontal_flip(),
                BitBoard::from(square(7 - file, rank))
            );
        }
    }
}

#[test]
fn horizontal_flip_reverses_each_byte() {
    for &x in SAMPLES.iter() {
        let bytes = x.to_le_bytes().map(|b| b.reverse_bits());
        assert_eq!(
            BitBoard::from(x).horizontal_flip(),
            BitBoard::from(u64::from_le_bytes(bytes))
        );
    }
}

#[test]
fn diagonal_flip_exchanges_file_and_rank() {
    assert_eq!(BitBoard::from(RANK_1).diagonal_a1_h8_flip(), BitBoard::from(A_FILE));
    assert_eq!(BitBoard::from(H_FILE).diagonal_a1_h8_flip(), BitBoard::from(RANK_8));
    assert_eq!(
        BitBoard::from(A1_H8_DIAGONAL).diagonal_a1_h8_flip(),
        BitBoard::from(A1_H8_DIAGONAL)
    );
    assert_eq!(
        BitBoard::from(H1_A8_DIAGONAL).diagonal_a1_h8_flip(),
        BitBoard::from(H1_A8_DIAGONAL)
    );
    for file in 0..8 {
        for rank in 0..8 {
            assert_eq!(
                BitBoard::from(square(file, rank)).diagonal_a1_h8_flip(),
                BitBoard::from(square(rank, file))
            );
        }
    }
}

#[test]
fn antidiagonal_flip_mirrors_in_h1_a8() {
    assert_eq!(BitBoard::from(RANK_1).diagonal_h1_a8_flip(), BitBoard::from(H_FILE));
    assert_eq!(BitBoard::from(A_FILE).diagonal_h1_a8_flip(), BitBoard::from(RANK_8));
    assert_eq!(
        BitBoard::from(H1_A8_DIAGONAL).diagonal_h1_a8_flip(),
        BitBoard::from(H1_A8_DIAGONAL)
    );
    assert_eq!(BitBoard::from(Square::A1).diagonal_h1_a8_flip(), BitBoard::from(Square::H8));
    for file in 0..8 {
        for rank in 0..8 {
            assert_eq!(
                BitBoard::from(square(file, rank)).diagonal_h1_a8_flip(),
                BitBoard::from(square(7 - rank, 7 - file))
            );
        }
    }
}

#[test]
fn every_flip_twice_is_the_identity() {
    for &x in SAMPLES.iter() {
        let b = BitBoard::from(x);
        assert_eq!(b.vertical_flip().vertical_flip(), b);
        assert_eq!(b.horizontal_flip().horizontal_flip(), b);
        assert_eq!(b.diagonal_a1_h8_flip().diagonal_a1_h8_flip(), b);
        assert_eq!(b.diagonal_h1_a8_flip().diagonal_h1_a8_flip(), b);
    }
}

#[test]
fn quarter_turns() {
    assert_eq!(BitBoard::from(Square::A1).rotate_90(), BitBoard::from(Square::A8));
    assert_eq!(BitBoard::from(Square::A8).rotate_90(), BitBoard::from(Square::H8));
    assert_eq!(BitBoard::from(Square::H8).rotate_90(), BitBoard::from(Square::H1));
    assert_eq!(BitBoard::from(Square::H1).rotate_90(), BitBoard::from(Square::A1));
    assert_eq!(BitBoard::from(Square::A1).rotate_270(), BitBoard::from(Square::H1));
    assert_eq!(BitBoard::from(Square::B1).rotate_90(), BitBoard::from(Square::A7));
    assert_eq!(BitBoard::from(Square::B1).rotate_270(), BitBoard::from(Square::H2));
    assert_eq!(BitBoard::from(Square::B1).rotate_180(), BitBoard::from(Square::G8));
    assert_eq!(BitBoard::from(RANK_1).rotate_90(), BitBoard::from(A_FILE));
    assert_eq!(BitBoard::from(RANK_1).rotate_270(), BitBoard::from(H_FILE));
    assert_eq!(BitBoard::from(RANK_1).rotate_180(), BitBoard::from(RANK_8));
}

#[test]
fn four_quarter_turns_restore_the_board() {
    for &x in SAMPLES.iter() {
        let b = BitBoard::from(x);
        assert_eq!(b.rotate_90().rotate_90().rotate_90().rotate_90(), b);
        assert_eq!(b.rotate_90().rotate_90(), b.rotate_180());
        assert_eq!(b.rotate_90().rotate_90().rotate_90(), b.rotate_270());
        assert_eq!(b.rotate_90().rotate_270(), b);
        assert_eq!(b.rotate_180().rotate_180(), b);
        assert_eq!(b.rotate_180(), b.horizontal_flip().vertical_flip());
        assert_eq!(b.rotate_90(), b.diagonal_a1_h8_flip().vertical_flip());
        assert_eq!(b.rotate_270(), b.vertical_flip().diagonal_a1_h8_flip());
    }
}

#[test]
fn half_turn_reverses_the_word() {
    for &x in SAMPLES.iter() {
        assert_eq!(BitBoard::from(x).rotate_180(), BitBoard::from(x.reverse_bits()));
    }
}

#[test]
fn corners_round_trip() {
    let corners = [Square::A1, Square::H1, Square::A8, Square::H8];
    let mask = BitBoard::from(&corners[..]);
    let flipped = mask.horizontal_flip().vertical_flip();
    let turned = mask.rotate_180();
    assert_eq!(flipped, turned);
    assert_eq!(turned, mask);
    assert_eq!(turned.rotate_180(), mask);
    assert_eq!(flipped.rotate_180(), mask);

    let lopsided = BitBoard::from(&[Square::A1, Square::B1, Square::A2][..]);
    let turned = lopsided.rotate_180();
    assert_eq!(lopsided.horizontal_flip().vertical_flip(), turned);
    assert_eq!(turned, BitBoard::from(&[Square::H8, Square::G8, Square::H7][..]));
    assert_eq!(turned.rotate_180(), lopsided);
}

#[test]
fn transforms_keep_the_population() {
    for &x in SAMPLES.iter() {
        let b = BitBoard::from(x);
        let n = b.population();
        assert_eq!(b.vertical_flip().population(), n);
        assert_eq!(b.horizontal_flip().population(), n);
        assert_eq!(b.diagonal_a1_h8_flip().population(), n);
        assert_eq!(b.diagonal_h1_a8_flip().population(), n);
        assert_eq!(b.rotate_90().population(), n);
    }
}

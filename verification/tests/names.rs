use chess_bitboard::bitboard::BitBoard;
use chess_bitboard::board::Compass;
use chess_bitboard::pieces::PieceType;
use chess_bitboard::square::Square;

const PIECES: [PieceType; 13] = [
    PieceType::NoPiece,
    PieceType::WhitePawn,
    PieceType::WhiteKnight,
    PieceType::WhiteBishop,
    PieceType::WhiteRook,
    PieceType::WhiteQueen,
    PieceType::WhiteKing,
    PieceType::BlackPawn,
    PieceType::BlackKnight,
    PieceType::BlackBishop,
    PieceType::BlackRook,
    PieceType::BlackQueen,
    PieceType::BlackKing,
];

#[test]
fn square_names() {
    assert_eq!(Square::A1.to_string(), "a1");
    assert_eq!(Square::H1.to_string(), "h1");
    assert_eq!(Square::E4.to_string(), "e4");
    assert_eq!(Square::G8.to_string(), "g8");
    assert_eq!(Square::A8.to_string(), "a8");
    assert_eq!(Square::H8.to_string(), "h8");
    for i in 0u8..64 {
        let file = (b'a' + i % 8) as char;
        let rank = (b'1' + i / 8) as char;
        let expected = format!("{}{}", file, rank);
        assert_eq!(Square::from_index(i).unwrap().to_string(), expected);
    }
}

#[test]
fn piece_names() {
    let names = [
        "no piece",
        "white pawn",
        "white knight",
        "white bishop",
        "white rook",
        "white queen",
        "white king",
        "black pawn",
        "black knight",
        "black bishop",
        "black rook",
        "black queen",
        "black king",
    ];
    for (piece, name) in PIECES.iter().zip(names.iter()) {
        assert_eq!(piece.as_full_str(), *name);
    }
}

#[test]
fn piece_glyphs() {
    let glyphs = [" ", "♙", "♘", "♗", "♖", "♕", "♔", "♟", "♞", "♝", "♜", "♛", "♚"];
    for (piece, glyph) in PIECES.iter().zip(glyphs.iter()) {
        assert_eq!(piece.to_string(), *glyph);
    }
}

#[test]
fn default_piece_is_no_piece() {
    assert_eq!(PieceType::default(), PieceType::NoPiece);
}

#[test]
fn piece_moves() {
    let board = BitBoard::from(0x42u64);
    assert!(PieceType::NoPiece.moves(board).is_empty());
    for piece in PIECES.iter().skip(1) {
        assert_eq!(piece.moves(board), board);
    }
}

#[test]
fn compass_offsets() {
    assert_eq!(Compass::NorthWest.offset(), 7);
    assert_eq!(Compass::North.offset(), 8);
    assert_eq!(Compass::NorthEast.offset(), 9);
    assert_eq!(Compass::West.offset(), -1);
    assert_eq!(Compass::Center.offset(), 0);
    assert_eq!(Compass::East.offset(), 1);
    assert_eq!(Compass::SouthWest.offset(), -9);
    assert_eq!(Compass::South.offset(), -8);
    assert_eq!(Compass::SouthEast.offset(), -7);
    assert_eq!(Compass::default(), Compass::Center);
}

use chess_bitboard::board::Board;
use chess_bitboard::pieces::PieceType;
use chess_bitboard::square::Square;

#[test]
fn test_get_piece() {
    let board = Board::default();
    assert_eq!(board.get_piece(Square::A8), PieceType::BlackRook);
    assert_eq!(board.get_piece(Square::B8), PieceType::BlackKnight);
    assert_eq!(board.get_piece(Square::C8), PieceType::BlackBishop);
    assert_eq!(board.get_piece(Square::D8), PieceType::BlackQueen);
    assert_eq!(board.get_piece(Square::E8), PieceType::BlackKing);
    assert_eq!(board.get_piece(Square::F8), PieceType::BlackBishop);
    assert_eq!(board.get_piece(Square::G8), PieceType::BlackKnight);
    assert_eq!(board.get_piece(Square::H8), PieceType::BlackRook);

    assert_eq!(board.get_piece(Square::A7), PieceType::BlackPawn);
    assert_eq!(board.get_piece(Square::B7), PieceType::BlackPawn);
    assert_eq!(board.get_piece(Square::C7), PieceType::BlackPawn);
    assert_eq!(board.get_piece(Square::D7), PieceType::BlackPawn);
    assert_eq!(board.get_piece(Square::E7), PieceType::BlackPawn);
    assert_eq!(board.get_piece(Square::F7), PieceType::BlackPawn);
    assert_eq!(board.get_piece(Square::G7), PieceType::BlackPawn);
    assert_eq!(board.get_piece(Square::H7), PieceType::BlackPawn);

    assert_eq!(board.get_piece(Square::A1), PieceType::WhiteRook);
    assert_eq!(board.get_piece(Square::B1), PieceType::WhiteKnight);
    assert_eq!(board.get_piece(Square::C1), PieceType::WhiteBishop);
    assert_eq!(board.get_piece(Square::D1), PieceType::WhiteQueen);
    assert_eq!(board.get_piece(Square::E1), PieceType::WhiteKing);
    assert_eq!(board.get_piece(Square::F1), PieceType::WhiteBishop);
    assert_eq!(board.get_piece(Square::G1), PieceType::WhiteKnight);
    assert_eq!(board.get_piece(Square::H1), PieceType::WhiteRook);

    assert_eq!(board.get_piece(Square::A2), PieceType::WhitePawn);
    assert_eq!(board.get_piece(Square::B2), PieceType::WhitePawn);
    assert_eq!(board.get_piece(Square::C2), PieceType::WhitePawn);
    assert_eq!(board.get_piece(Square::D2), PieceType::WhitePawn);
    assert_eq!(board.get_piece(Square::E2), PieceType::WhitePawn);
    assert_eq!(board.get_piece(Square::F2), PieceType::WhitePawn);
    assert_eq!(board.get_piece(Square::G2), PieceType::WhitePawn);
    assert_eq!(board.get_piece(Square::H2), PieceType::WhitePawn);
}

#[test]
fn starting_position_scenario() {
    let board = Board::default();
    assert_eq!(board.get_piece(Square::A8), PieceType::BlackRook);
    assert_eq!(board.get_piece(Square::E8), PieceType::BlackKing);
    assert_eq!(board.get_piece(Square::D1), PieceType::WhiteQueen);
    assert_eq!(board.get_piece(Square::E4), PieceType::NoPiece);
}

#[test]
fn middle_ranks_are_empty_at_the_start() {
    let board = Board::default();
    for i in 0u8..64 {
        let square = Square::from_index(i).unwrap();
        let empty = (16..48).contains(&i);
        assert_eq!(board.has_empty(square), empty);
        assert_eq!(board.get_piece(square) == PieceType::NoPiece, empty);
    }
    assert!(!board.is_empty());
}

#[test]
fn starting_position_printed() {
    let expected = "
        ┌──┬──┬──┬──┬──┬──┬──┬──┐
      8 │♜ │♞ │♝ │♛ │♚ │♝ │♞ │♜ │
        ├──┼──┼──┼──┼──┼──┼──┼──┤
      7 │♟ │♟ │♟ │♟ │♟ │♟ │♟ │♟ │
        ├──┼──┼──┼──┼──┼──┼──┼──┤
      6 │  │  │  │  │  │  │  │  │
        ├──┼──┼──┼──┼──┼──┼──┼──┤
      5 │  │  │  │  │  │  │  │  │
        ├──┼──┼──┼──┼──┼──┼──┼──┤
      4 │  │  │  │  │  │  │  │  │
        ├──┼──┼──┼──┼──┼──┼──┼──┤
      3 │  │  │  │  │  │  │  │  │
        ├──┼──┼──┼──┼──┼──┼──┼──┤
      2 │♙ │♙ │♙ │♙ │♙ │♙ │♙ │♙ │
        ├──┼──┼──┼──┼──┼──┼──┼──┤
      1 │♖ │♘ │♗ │♕ │♔ │♗ │♘ │♖ │
        └──┴──┴──┴──┴──┴──┴──┴──┘
         a  b  c  d  e  f  g  h
        ";
    assert_eq!(Board::default().to_string(), expected);
}

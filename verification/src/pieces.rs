//! The thirteen piece identities: no piece, and six kinds in two colours.

use crate::bitboard::BitBoard;
use crate::masks::{lemma_extreme_masks, EMPTY};
use vstd::prelude::*;

verus! {

/// What stands on a square. The tag serves reports; the board logic works on
/// the per-piece masks.
#[derive(Debug, PartialEq, Eq, Clone, Copy, Structural)]
pub enum PieceType {
    NoPiece,
    WhitePawn,
    WhiteKnight,
    WhiteBishop,
    WhiteRook,
    WhiteQueen,
    WhiteKing,
    BlackPawn,
    BlackKnight,
    BlackBishop,
    BlackRook,
    BlackQueen,
    BlackKing,
}

impl Default for PieceType {
    /// No piece.
    fn default() -> (r: Self)
        ensures
            r == PieceType::NoPiece,
    {
        PieceType::NoPiece
    }
}

impl PieceType {
    /// Whether the piece is one of the six white ones.
    pub open spec fn is_white(self) -> bool {
        self == PieceType::WhitePawn || self == PieceType::WhiteKnight || self
            == PieceType::WhiteBishop || self == PieceType::WhiteRook || self
            == PieceType::WhiteQueen || self == PieceType::WhiteKing
    }

    /// Whether the piece is one of the six black ones.
    pub open spec fn is_black(self) -> bool {
        self != PieceType::NoPiece && !self.is_white()
    }

    /// The name of the piece in words.
    pub open spec fn full_name(self) -> Seq<char> {
        match self {
            PieceType::NoPiece => "no piece"@,
            PieceType::WhitePawn => "white pawn"@,
            PieceType::WhiteKnight => "white knight"@,
            PieceType::WhiteBishop => "white bishop"@,
            PieceType::WhiteRook => "white rook"@,
            PieceType::WhiteQueen => "white queen"@,
            PieceType::WhiteKing => "white king"@,
            PieceType::BlackPawn => "black pawn"@,
            PieceType::BlackKnight => "black knight"@,
            PieceType::BlackBishop => "black bishop"@,
            PieceType::BlackRook => "black rook"@,
            PieceType::BlackQueen => "black queen"@,
            PieceType::BlackKing => "black king"@,
        }
    }

    /// The character that shows the piece on a printed board: a blank for no
    /// piece, else the chess symbol of the piece.
    pub open spec fn glyph(self) -> char {
        match self {
            PieceType::NoPiece => ' ',
            PieceType::WhitePawn => '♙',
            PieceType::WhiteKnight => '♘',
            PieceType::WhiteBishop => '♗',
            PieceType::WhiteRook => '♖',
            PieceType::WhiteQueen => '♕',
            PieceType::WhiteKing => '♔',
            PieceType::BlackPawn => '♟',
            PieceType::BlackKnight => '♞',
            PieceType::BlackBishop => '♝',
            PieceType::BlackRook => '♜',
            PieceType::BlackQueen => '♛',
            PieceType::BlackKing => '♚',
        }
    }

    /// The name of the piece in words, such as `"white pawn"`.
    pub fn as_full_str(&self) -> (s: &'static str)
        ensures
            s@ == self.full_name(),
    {
        match *self {
            PieceType::NoPiece => "no piece",
            PieceType::WhitePawn => "white pawn",
            PieceType::WhiteKnight => "white knight",
            PieceType::WhiteBishop => "white bishop",
            PieceType::WhiteRook => "white rook",
            PieceType::WhiteQueen => "white queen",
            PieceType::WhiteKing => "white king",
            PieceType::BlackPawn => "black pawn",
            PieceType::BlackKnight => "black knight",
            PieceType::BlackBishop => "black bishop",
            PieceType::BlackRook => "black rook",
            PieceType::BlackQueen => "black queen",
            PieceType::BlackKing => "black king",
        }
    }

    /// The squares that pieces of this kind standing on `piece` hold: `piece`
    /// itself, and none where there is no piece.
    pub fn moves(&self, piece: BitBoard) -> (r: BitBoard)
        ensures
            *self == PieceType::NoPiece ==> r@ == Set::<int>::empty(),
            *self != PieceType::NoPiece ==> r == piece,
    {
        match *self {
            PieceType::NoPiece => {
                proof {
                    lemma_extreme_masks();
                }
                BitBoard::from(EMPTY)
            },
            PieceType::WhitePawn => piece,
            PieceType::WhiteKnight => piece,
            PieceType::WhiteBishop => piece,
            PieceType::WhiteRook => piece,
            PieceType::WhiteQueen => piece,
            PieceType::WhiteKing => piece,
            PieceType::BlackPawn => piece,
            PieceType::BlackKnight => piece,
            PieceType::BlackBishop => piece,
            PieceType::BlackRook => piece,
            PieceType::BlackQueen => piece,
            PieceType::BlackKing => piece,
        }
    }

    /// The piece as it shows on a printed board: one character, its glyph.
    pub fn to_string(&self) -> (s: String)
        ensures
            s@ == seq![self.glyph()],
    {
        let text = match *self {
            PieceType::NoPiece => {
                proof {
                    reveal_strlit(" ");
                }
                " "
            },
            PieceType::WhitePawn => {
                proof {
                    reveal_strlit("♙");
                }
                "♙"
            },
            PieceType::WhiteKnight => {
                proof {
                    reveal_strlit("♘");
                }
                "♘"
            },
            PieceType::WhiteBishop => {
                proof {
                    reveal_strlit("♗");
                }
                "♗"
            },
            PieceType::WhiteRook => {
                proof {
                    reveal_strlit("♖");
                }
                "♖"
            },
            PieceType::WhiteQueen => {
                proof {
                    reveal_strlit("♕");
                }
                "♕"
            },
            PieceType::WhiteKing => {
                proof {
                    reveal_strlit("♔");
                }
                "♔"
            },
            PieceType::BlackPawn => {
                proof {
                    reveal_strlit("♟");
                }
                "♟"
            },
            PieceType::BlackKnight => {
                proof {
                    reveal_strlit("♞");
                }
                "♞"
            },
            PieceType::BlackBishop => {
                proof {
                    reveal_strlit("♝");
                }
                "♝"
            },
            PieceType::BlackRook => {
                proof {
                    reveal_strlit("♜");
                }
                "♜"
            },
            PieceType::BlackQueen => {
                proof {
                    reveal_strlit("♛");
                }
                "♛"
            },
            PieceType::BlackKing => {
                proof {
                    reveal_strlit("♚");
                }
                "♚"
            },
        };
        assert(text@ =~= seq![self.glyph()]);
        text.to_owned()
    }
}

} // verus!

//! The 64 squares of the board by name.

use crate::geometry::{file_of, on_board, rank_of};
use vstd::prelude::*;

verus! {

/// A square of the board. The variants stand in index order: `A1` has index
/// 0, `H1` index 7, `A8` index 56 and `H8` index 63.
#[derive(Clone, Copy, PartialEq, Eq, Debug, Structural)]
pub enum Square {
    A1,
    B1,
    C1,
    D1,
    E1,
    F1,
    G1,
    H1,
    A2,
    B2,
    C2,
    D2,
    E2,
    F2,
    G2,
    H2,
    A3,
    B3,
    C3,
    D3,
    E3,
    F3,
    G3,
    H3,
    A4,
    B4,
    C4,
    D4,
    E4,
    F4,
    G4,
    H4,
    A5,
    B5,
    C5,
    D5,
    E5,
    F5,
    G5,
    H5,
    A6,
    B6,
    C6,
    D6,
    E6,
    F6,
    G6,
    H6,
    A7,
    B7,
    C7,
    D7,
    E7,
    F7,
    G7,
    H7,
    A8,
    B8,
    C8,
    D8,
    E8,
    F8,
    G8,
    H8,
}

/// The letter of a file: `a` for file 0 up to `h` for file 7.
pub open spec fn file_letter(file: int) -> char {
    ('a' as int + file) as char
}

/// The digit of a rank: `1` for rank 0 up to `8` for rank 7.
pub open spec fn rank_digit(rank: int) -> char {
    ('1' as int + rank) as char
}

impl Square {
    /// The index of the square, `0..64`.
    pub open spec fn ordinal(self) -> int {
        match self {
            Square::A1 => 0,
            Square::B1 => 1,
            Square::C1 => 2,
            Square::D1 => 3,
            Square::E1 => 4,
            Square::F1 => 5,
            Square::G1 => 6,
            Square::H1 => 7,
            Square::A2 => 8,
            Square::B2 => 9,
            Square::C2 => 10,
            Square::D2 => 11,
            Square::E2 => 12,
            Square::F2 => 13,
            Square::G2 => 14,
            Square::H2 => 15,
            Square::A3 => 16,
            Square::B3 => 17,
            Square::C3 => 18,
            Square::D3 => 19,
            Square::E3 => 20,
            Square::F3 => 21,
            Square::G3 => 22,
            Square::H3 => 23,
            Square::A4 => 24,
            Square::B4 => 25,
            Square::C4 => 26,
            Square::D4 => 27,
            Square::E4 => 28,
            Square::F4 => 29,
            Square::G4 => 30,
            Square::H4 => 31,
            Square::A5 => 32,
            Square::B5 => 33,
            Square::C5 => 34,
            Square::D5 => 35,
            Square::E5 => 36,
            Square::F5 => 37,
            Square::G5 => 38,
            Square::H5 => 39,
            Square::A6 => 40,
            Square::B6 => 41,
            Square::C6 => 42,
            Square::D6 => 43,
            Square::E6 => 44,
            Square::F6 => 45,
            Square::G6 => 46,
            Square::H6 => 47,
            Square::A7 => 48,
            Square::B7 => 49,
            Square::C7 => 50,
            Square::D7 => 51,
            Square::E7 => 52,
            Square::F7 => 53,
            Square::G7 => 54,
            Square::H7 => 55,
            Square::A8 => 56,
            Square::B8 => 57,
            Square::C8 => 58,
            Square::D8 => 59,
            Square::E8 => 60,
            Square::F8 => 61,
            Square::G8 => 62,
            Square::H8 => 63,
        }
    }

    /// The file of the square, `0` for file a up to `7` for file h.
    pub open spec fn file(self) -> int {
        file_of(self.ordinal())
    }

    /// The rank of the square, `0` for rank 1 up to `7` for rank 8.
    pub open spec fn rank(self) -> int {
        rank_of(self.ordinal())
    }

    /// The algebraic name of the square: its file letter, then its rank digit.
    pub open spec fn name(self) -> Seq<char> {
        seq![file_letter(self.file()), rank_digit(self.rank())]
    }

    /// Every square has an index on the board, and no two squares share one.
    pub proof fn lemma_ordinal(self, other: Square)
        ensures
            on_board(self.ordinal()),
            0 <= self.file() < 8,
            0 <= self.rank() < 8,
            self.ordinal() == other.ordinal() ==> self == other,
    {
    }

    /// The index of the square.
    pub fn index(self) -> (i: u8)
        ensures
            i == self.ordinal(),
            i < 64,
    {
        match self {
            Square::A1 => 0,
            Square::B1 => 1,
            Square::C1 => 2,
            Square::D1 => 3,
            Square::E1 => 4,
            Square::F1 => 5,
            Square::G1 => 6,
            Square::H1 => 7,
            Square::A2 => 8,
            Square::B2 => 9,
            Square::C2 => 10,
            Square::D2 => 11,
            Square::E2 => 12,
            Square::F2 => 13,
            Square::G2 => 14,
            Square::H2 => 15,
            Square::A3 => 16,
            Square::B3 => 17,
            Square::C3 => 18,
            Square::D3 => 19,
            Square::E3 => 20,
            Square::F3 => 21,
            Square::G3 => 22,
            Square::H3 => 23,
            Square::A4 => 24,
            Square::B4 => 25,
            Square::C4 => 26,
            Square::D4 => 27,
            Square::E4 => 28,
            Square::F4 => 29,
            Square::G4 => 30,
            Square::H4 => 31,
            Square::A5 => 32,
            Square::B5 => 33,
            Square::C5 => 34,
            Square::D5 => 35,
            Square::E5 => 36,
            Square::F5 => 37,
            Square::G5 => 38,
            Square::H5 => 39,
            Square::A6 => 40,
            Square::B6 => 41,
            Square::C6 => 42,
            Square::D6 => 43,
            Square::E6 => 44,
            Square::F6 => 45,
            Square::G6 => 46,
            Square::H6 => 47,
            Square::A7 => 48,
            Square::B7 => 49,
            Square::C7 => 50,
            Square::D7 => 51,
            Square::E7 => 52,
            Square::F7 => 53,
            Square::G7 => 54,
            Square::H7 => 55,
            Square::A8 => 56,
            Square::B8 => 57,
            Square::C8 => 58,
            Square::D8 => 59,
            Square::E8 => 60,
            Square::F8 => 61,
            Square::G8 => 62,
            Square::H8 => 63,
        }
    }

    /// The square at an index, if the index is on the board.
    pub fn from_index(i: u8) -> (r: Option<Square>)
        ensures
            on_board(i as int) ==> r.is_some() && r.unwrap().ordinal() == i,
            !on_board(i as int) ==> r.is_none(),
    {
        match i {
            0 => Some(Square::A1),
            1 => Some(Square::B1),
            2 => Some(Square::C1),
            3 => Some(Square::D1),
            4 => Some(Square::E1),
            5 => Some(Square::F1),
            6 => Some(Square::G1),
            7 => Some(Square::H1),
            8 => Some(Square::A2),
            9 => Some(Square::B2),
            10 => Some(Square::C2),
            11 => Some(Square::D2),
            12 => Some(Square::E2),
            13 => Some(Square::F2),
            14 => Some(Square::G2),
            15 => Some(Square::H2),
            16 => Some(Square::A3),
            17 => Some(Square::B3),
            18 => Some(Square::C3),
            19 => Some(Square::D3),
            20 => Some(Square::E3),
            21 => Some(Square::F3),
            22 => Some(Square::G3),
            23 => Some(Square::H3),
            24 => Some(Square::A4),
            25 => Some(Square::B4),
            26 => Some(Square::C4),
            27 => Some(Square::D4),
            28 => Some(Square::E4),
            29 => Some(Square::F4),
            30 => Some(Square::G4),
            31 => Some(Square::H4),
            32 => Some(Square::A5),
            33 => Some(Square::B5),
            34 => Some(Square::C5),
            35 => Some(Square::D5),
            36 => Some(Square::E5),
            37 => Some(Square::F5),
            38 => Some(Square::G5),
            39 => Some(Square::H5),
            40 => Some(Square::A6),
            41 => Some(Square::B6),
            42 => Some(Square::C6),
            43 => Some(Square::D6),
            44 => Some(Square::E6),
            45 => Some(Square::F6),
            46 => Some(Square::G6),
            47 => Some(Square::H6),
            48 => Some(Square::A7),
            49 => Some(Square::B7),
            50 => Some(Square::C7),
            51 => Some(Square::D7),
            52 => Some(Square::E7),
            53 => Some(Square::F7),
            54 => Some(Square::G7),
            55 => Some(Square::H7),
            56 => Some(Square::A8),
            57 => Some(Square::B8),
            58 => Some(Square::C8),
            59 => Some(Square::D8),
            60 => Some(Square::E8),
            61 => Some(Square::F8),
            62 => Some(Square::G8),
            63 => Some(Square::H8),
            _ => None,
        }
    }

    /// The algebraic name of the square, `"a1"` to `"h8"`.
    pub fn to_string(&self) -> (s: String)
        ensures
            s@ == self.name(),
    {
        let text = match self {
            Square::A1 => {
                proof {
                    reveal_strlit("a1");
                }
                "a1"
            },
            Square::B1 => {
                proof {
                    reveal_strlit("b1");
                }
                "b1"
            },
            Square::C1 => {
                proof {
                    reveal_strlit("c1");
                }
                "c1"
            },
            Square::D1 => {
                proof {
                    reveal_strlit("d1");
                }
                "d1"
            },
            Square::E1 => {
                proof {
                    reveal_strlit("e1");
                }
                "e1"
            },
            Square::F1 => {
                proof {
                    reveal_strlit("f1");
                }
                "f1"
            },
            Square::G1 => {
                proof {
                    reveal_strlit("g1");
                }
                "g1"
            },
            Square::H1 => {
                proof {
                    reveal_strlit("h1");
                }
                "h1"
            },
            Square::A2 => {
                proof {
                    reveal_strlit("a2");
                }
                "a2"
            },
            Square::B2 => {
                proof {
                    reveal_strlit("b2");
                }
                "b2"
            },
            Square::C2 => {
                proof {
                    reveal_strlit("c2");
                }
                "c2"
            },
            Square::D2 => {
                proof {
                    reveal_strlit("d2");
                }
                "d2"
            },
            Square::E2 => {
                proof {
                    reveal_strlit("e2");
                }
                "e2"
            },
            Square::F2 => {
                proof {
                    reveal_strlit("f2");
                }
                "f2"
            },
            Square::G2 => {
                proof {
                    reveal_strlit("g2");
                }
                "g2"
            },
            Square::H2 => {
                proof {
                    reveal_strlit("h2");
                }
                "h2"
            },
            Square::A3 => {
                proof {
                    reveal_strlit("a3");
                }
                "a3"
            },
            Square::B3 => {
                proof {
                    reveal_strlit("b3");
                }
                "b3"
            },
            Square::C3 => {
                proof {
                    reveal_strlit("c3");
                }
                "c3"
            },
            Square::D3 => {
                proof {
                    reveal_strlit("d3");
                }
                "d3"
            },
            Square::E3 => {
                proof {
                    reveal_strlit("e3");
                }
                "e3"
            },
            Square::F3 => {
                proof {
                    reveal_strlit("f3");
                }
                "f3"
            },
            Square::G3 => {
                proof {
                    reveal_strlit("g3");
                }
                "g3"
            },
            Square::H3 => {
                proof {
                    reveal_strlit("h3");
                }
                "h3"
            },
            Square::A4 => {
                proof {
                    reveal_strlit("a4");
                }
                "a4"
            },
            Square::B4 => {
                proof {
                    reveal_strlit("b4");
                }
                "b4"
            },
            Square::C4 => {
                proof {
                    reveal_strlit("c4");
                }
                "c4"
            },
            Square::D4 => {
                proof {
                    reveal_strlit("d4");
                }
                "d4"
            },
            Square::E4 => {
                proof {
                    reveal_strlit("e4");
                }
                "e4"
            },
            Square::F4 => {
                proof {
                    reveal_strlit("f4");
                }
                "f4"
            },
            Square::G4 => {
                proof {
                    reveal_strlit("g4");
                }
                "g4"
            },
            Square::H4 => {
                proof {
                    reveal_strlit("h4");
                }
                "h4"
            },
            Square::A5 => {
                proof {
                    reveal_strlit("a5");
                }
                "a5"
            },
            Square::B5 => {
                proof {
                    reveal_strlit("b5");
                }
                "b5"
            },
            Square::C5 => {
                proof {
                    reveal_strlit("c5");
                }
                "c5"
            },
            Square::D5 => {
                proof {
                    reveal_strlit("d5");
                }
                "d5"
            },
            Square::E5 => {
                proof {
                    reveal_strlit("e5");
                }
                "e5"
            },
            Square::F5 => {
                proof {
                    reveal_strlit("f5");
                }
                "f5"
            },
            Square::G5 => {
                proof {
                    reveal_strlit("g5");
                }
                "g5"
            },
            Square::H5 => {
                proof {
                    reveal_strlit("h5");
                }
                "h5"
            },
            Square::A6 => {
                proof {
                    reveal_strlit("a6");
                }
                "a6"
            },
            Square::B6 => {
                proof {
                    reveal_strlit("b6");
                }
                "b6"
            },
            Square::C6 => {
                proof {
                    reveal_strlit("c6");
                }
                "c6"
            },
            Square::D6 => {
                proof {
                    reveal_strlit("d6");
                }
                "d6"
            },
            Square::E6 => {
                proof {
                    reveal_strlit("e6");
                }
                "e6"
            },
            Square::F6 => {
                proof {
                    reveal_strlit("f6");
                }
                "f6"
            },
            Square::G6 => {
                proof {
                    reveal_strlit("g6");
                }
                "g6"
            },
            Square::H6 => {
                proof {
                    reveal_strlit("h6");
                }
                "h6"
            },
            Square::A7 => {
                proof {
                    reveal_strlit("a7");
                }
                "a7"
            },
            Square::B7 => {
                proof {
                    reveal_strlit("b7");
                }
                "b7"
            },
            Square::C7 => {
                proof {
                    reveal_strlit("c7");
                }
                "c7"
            },
            Square::D7 => {
                proof {
                    reveal_strlit("d7");
                }
                "d7"
            },
            Square::E7 => {
                proof {
                    reveal_strlit("e7");
                }
                "e7"
            },
            Square::F7 => {
                proof {
                    reveal_strlit("f7");
                }
                "f7"
            },
            Square::G7 => {
                proof {
                    reveal_strlit("g7");
                }
                "g7"
            },
            Square::H7 => {
                proof {
                    reveal_strlit("h7");
                }
                "h7"
            },
            Square::A8 => {
                proof {
                    reveal_strlit("a8");
                }
                "a8"
            },
            Square::B8 => {
                proof {
                    reveal_strlit("b8");
                }
                "b8"
            },
            Square::C8 => {
                proof {
                    reveal_strlit("c8");
                }
                "c8"
            },
            Square::D8 => {
                proof {
                    reveal_strlit("d8");
                }
                "d8"
            },
            Square::E8 => {
                proof {
                    reveal_strlit("e8");
                }
                "e8"
            },
            Square::F8 => {
                proof {
                    reveal_strlit("f8");
                }
                "f8"
            },
            Square::G8 => {
                proof {
                    reveal_strlit("g8");
                }
                "g8"
            },
            Square::H8 => {
                proof {
                    reveal_strlit("h8");
                }
                "h8"
            },
        };
        assert(text@ =~= self.name());
        text.to_owned()
    }
}

} // verus!

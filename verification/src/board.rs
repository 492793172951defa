//! The piece placement: one mask per colour and piece kind, the aggregate
//! masks of each colour and of all pieces, and the lookup from a square to
//! the piece on it.

use crate::bitboard::BitBoard;
use crate::bits::{bit_at, squares_of};
use crate::geometry::{lemma_coordinates, on_board, square_at, vacant, within_board};
use crate::pieces::PieceType;
use crate::square::Square;
use std::marker::PhantomData;
use vstd::prelude::*;
use vstd::string::StringExecFns;

verus! {

/// Marks a position in which White is to move.
pub struct White;

/// Marks a position in which Black is to move.
pub struct Black;

/// The eight neighbour directions of a square, and standing still.
#[derive(PartialEq, Eq, Clone, Copy, Debug, Structural)]
pub enum Compass {
    NorthWest,
    North,
    NorthEast,
    West,
    Center,
    East,
    SouthWest,
    South,
    SouthEast,
}

impl Default for Compass {
    /// Standing still.
    fn default() -> (r: Self)
        ensures
            r == Compass::Center,
    {
        Compass::Center
    }
}

impl Compass {
    /// Files gained by one step: 1 towards file h, -1 towards file a.
    pub open spec fn file_step(self) -> int {
        match self {
            Compass::NorthEast | Compass::East | Compass::SouthEast => 1,
            Compass::NorthWest | Compass::West | Compass::SouthWest => -1,
            Compass::North | Compass::Center | Compass::South => 0,
        }
    }

    /// Ranks gained by one step: 1 towards rank 8, -1 towards rank 1.
    pub open spec fn rank_step(self) -> int {
        match self {
            Compass::NorthWest | Compass::North | Compass::NorthEast => 1,
            Compass::SouthWest | Compass::South | Compass::SouthEast => -1,
            Compass::West | Compass::Center | Compass::East => 0,
        }
    }

    /// What one step in the direction adds to the index of a square: eight for
    /// each rank gained and one for each file gained.
    pub fn offset(&self) -> (d: i8)
        ensures
            d == 8 * self.rank_step() + self.file_step(),
    {
        match *self {
            Compass::NorthWest => 7,
            Compass::North => 8,
            Compass::NorthEast => 9,
            Compass::West => -1,
            Compass::Center => 0,
            Compass::East => 1,
            Compass::SouthWest => -9,
            Compass::South => -8,
            Compass::SouthEast => -7,
        }
    }
}

/// The squares on which each piece stands when a game begins; for no piece,
/// the four empty ranks in the middle.
pub open spec fn starting_squares(piece: PieceType) -> Set<int> {
    match piece {
        PieceType::NoPiece => Set::new(|i: int| 16 <= i < 48),
        PieceType::WhitePawn => Set::new(|i: int| 8 <= i < 16),
        PieceType::WhiteKnight => set![1, 6],
        PieceType::WhiteBishop => set![2, 5],
        PieceType::WhiteRook => set![0, 7],
        PieceType::WhiteQueen => set![3],
        PieceType::WhiteKing => set![4],
        PieceType::BlackPawn => Set::new(|i: int| 48 <= i < 56),
        PieceType::BlackKnight => set![57, 62],
        PieceType::BlackBishop => set![58, 61],
        PieceType::BlackRook => set![56, 63],
        PieceType::BlackQueen => set![59],
        PieceType::BlackKing => set![60],
    }
}

/// Which bits the words of the starting position have set.
proof fn lemma_starting_bit(i: u64)
    by (bit_vector)
    requires
        i < 64,
    ensures
        bit_at(0xFF00, i) == (8 <= i < 16),
        bit_at(0x42, i) == (i == 1 || i == 6),
        bit_at(0x24, i) == (i == 2 || i == 5),
        bit_at(0x81, i) == (i == 0 || i == 7),
        bit_at(0x08, i) == (i == 3),
        bit_at(0x10, i) == (i == 4),
        bit_at(0x00FF_0000_0000_0000, i) == (48 <= i < 56),
        bit_at(0x4200_0000_0000_0000, i) == (i == 57 || i == 62),
        bit_at(0x2400_0000_0000_0000, i) == (i == 58 || i == 61),
        bit_at(0x8100_0000_0000_0000, i) == (i == 56 || i == 63),
        bit_at(0x0800_0000_0000_0000, i) == (i == 59),
        bit_at(0x1000_0000_0000_0000, i) == (i == 60),
        bit_at(0xFFFF, i) == (i < 16),
        bit_at(0xFFFF_0000_0000_0000, i) == (48 <= i),
        bit_at(0xFFFF_0000_0000_FFFF, i) == (i < 16 || 48 <= i),
{
}

/// A word whose set bits are exactly the members of `s` is the set `s`.
proof fn lemma_word_squares(word: u64, s: Set<int>)
    requires
        forall|i: int| on_board(i) ==> bit_at(word, i as u64) == #[trigger] s.contains(i),
        within_board(s),
    ensures
        squares_of(word) == s,
{
    assert(squares_of(word) =~= s);
}

/// The words of the starting position are the starting squares of the pieces.
proof fn lemma_starting_words()
    ensures
        squares_of(0xFF00) == starting_squares(PieceType::WhitePawn),
        squares_of(0x42) == starting_squares(PieceType::WhiteKnight),
        squares_of(0x24) == starting_squares(PieceType::WhiteBishop),
        squares_of(0x81) == starting_squares(PieceType::WhiteRook),
        squares_of(0x08) == starting_squares(PieceType::WhiteQueen),
        squares_of(0x10) == starting_squares(PieceType::WhiteKing),
        squares_of(0x00FF_0000_0000_0000) == starting_squares(PieceType::BlackPawn),
        squares_of(0x4200_0000_0000_0000) == starting_squares(PieceType::BlackKnight),
        squares_of(0x2400_0000_0000_0000) == starting_squares(PieceType::BlackBishop),
        squares_of(0x8100_0000_0000_0000) == starting_squares(PieceType::BlackRook),
        squares_of(0x0800_0000_0000_0000) == starting_squares(PieceType::BlackQueen),
        squares_of(0x1000_0000_0000_0000) == starting_squares(PieceType::BlackKing),
        squares_of(0xFFFF) == Set::new(|i: int| 0 <= i < 16),
        squares_of(0xFFFF_0000_0000_0000) == Set::new(|i: int| 48 <= i < 64),
        squares_of(0xFFFF_0000_0000_FFFF) == Set::new(|i: int| 0 <= i < 16 || 48 <= i < 64),
{
    assert forall|i: int| on_board(i) implies {
        &&& bit_at(0xFF00, i as u64) == (8 <= i < 16)
        &&& bit_at(0x42, i as u64) == (i == 1 || i == 6)
        &&& bit_at(0x24, i as u64) == (i == 2 || i == 5)
        &&& bit_at(0x81, i as u64) == (i == 0 || i == 7)
        &&& bit_at(0x08, i as u64) == (i == 3)
        &&& bit_at(0x10, i as u64) == (i == 4)
        &&& bit_at(0x00FF_0000_0000_0000, i as u64) == (48 <= i < 56)
        &&& bit_at(0x4200_0000_0000_0000, i as u64) == (i == 57 || i == 62)
        &&& bit_at(0x2400_0000_0000_0000, i as u64) == (i == 58 || i == 61)
        &&& bit_at(0x8100_0000_0000_0000, i as u64) == (i == 56 || i == 63)
        &&& bit_at(0x0800_0000_0000_0000, i as u64) == (i == 59)
        &&& bit_at(0x1000_0000_0000_0000, i as u64) == (i == 60)
        &&& bit_at(0xFFFF, i as u64) == (i < 16)
        &&& bit_at(0xFFFF_0000_0000_0000, i as u64) == (48 <= i)
        &&& bit_at(0xFFFF_0000_0000_FFFF, i as u64) == (i < 16 || 48 <= i)
    } by {
        lemma_starting_bit(i as u64);
    }
    lemma_word_squares(0xFF00, starting_squares(PieceType::WhitePawn));
    lemma_word_squares(0x42, starting_squares(PieceType::WhiteKnight));
    lemma_word_squares(0x24, starting_squares(PieceType::WhiteBishop));
    lemma_word_squares(0x81, starting_squares(PieceType::WhiteRook));
    lemma_word_squares(0x08, starting_squares(PieceType::WhiteQueen));
    lemma_word_squares(0x10, starting_squares(PieceType::WhiteKing));
    lemma_word_squares(0x00FF_0000_0000_0000, starting_squares(PieceType::BlackPawn));
    lemma_word_squares(0x4200_0000_0000_0000, starting_squares(PieceType::BlackKnight));
    lemma_word_squares(0x2400_0000_0000_0000, starting_squares(PieceType::BlackBishop));
    lemma_word_squares(0x8100_0000_0000_0000, starting_squares(PieceType::BlackRook));
    lemma_word_squares(0x0800_0000_0000_0000, starting_squares(PieceType::BlackQueen));
    lemma_word_squares(0x1000_0000_0000_0000, starting_squares(PieceType::BlackKing));
    lemma_word_squares(0xFFFF, Set::new(|i: int| 0 <= i < 16));
    lemma_word_squares(0xFFFF_0000_0000_0000, Set::new(|i: int| 48 <= i < 64));
    lemma_word_squares(0xFFFF_0000_0000_FFFF, Set::new(|i: int| 0 <= i < 16 || 48 <= i < 64));
}

/// A chess position as a passive snapshot: where the pieces stand. The type
/// parameter records whose move it is and holds no data.
pub struct Board<T> {
    board: BitBoard,
    white_board: BitBoard,
    black_board: BitBoard,
    white_pawn: BitBoard,
    white_knight: BitBoard,
    white_bishop: BitBoard,
    white_rook: BitBoard,
    white_queen: BitBoard,
    white_king: BitBoard,
    black_pawn: BitBoard,
    black_knight: BitBoard,
    black_bishop: BitBoard,
    black_rook: BitBoard,
    black_queen: BitBoard,
    black_king: BitBoard,
    turn: PhantomData<T>,
}

/// The piece of the first mask in `candidates` that holds square `i`, or
/// `otherwise` if none of them does.
pub open spec fn first_holding(
    candidates: Seq<(PieceType, BitBoard)>,
    i: int,
    otherwise: PieceType,
) -> PieceType
    decreases candidates.len(),
{
    if candidates.len() == 0 {
        otherwise
    } else if candidates.first().1@.contains(i) {
        candidates.first().0
    } else {
        first_holding(candidates.drop_first(), i, otherwise)
    }
}

/// If none of the first `k` masks holds the square, the search goes on with
/// the others.
proof fn lemma_first_holding_skip(
    candidates: Seq<(PieceType, BitBoard)>,
    i: int,
    otherwise: PieceType,
    k: int,
)
    requires
        0 <= k <= candidates.len(),
        forall|j: int| 0 <= j < k ==> !(#[trigger] candidates[j]).1@.contains(i),
    ensures
        first_holding(candidates, i, otherwise) == first_holding(
            candidates.skip(k),
            i,
            otherwise,
        ),
    decreases k,
{
    if k == 0 {
        assert(candidates.skip(0) =~= candidates);
    } else {
        lemma_first_holding_skip(candidates, i, otherwise, k - 1);
        let rest = candidates.skip(k - 1);
        assert(rest.first() == candidates[k - 1]);
        assert(rest.drop_first() =~= candidates.skip(k));
    }
}

/// Probes the masks in order and returns the piece of the first one that
/// holds `square`, or `otherwise`.
fn probe(candidates: &[(PieceType, BitBoard); 5], square: Square, otherwise: PieceType) -> (r:
    PieceType)
    ensures
        r == first_holding(candidates@, square.ordinal(), otherwise),
{
    let ghost i = square.ordinal();
    let mut k: usize = 0;
    while k < 5
        invariant
            k <= 5,
            i == square.ordinal(),
            forall|j: int| 0 <= j < k ==> !(#[trigger] candidates@[j]).1@.contains(i),
        decreases 5 - k,
    {
        let candidate = candidates[k];
        if candidate.1.check(square) {
            proof {
                lemma_first_holding_skip(candidates@, i, otherwise, k as int);
                assert(candidates@.skip(k as int).first() == candidate);
                assert(candidate.1@.contains(i));
            }
            return candidate.0;
        }
        assert(!candidate.1@.contains(i));
        k = k + 1;
    }
    proof {
        lemma_first_holding_skip(candidates@, i, otherwise, 5);
        assert(candidates@.skip(5).len() == 0);
    }
    otherwise
}

/// How the line of rank `rank` (counted from 0) of a printed position begins:
/// the number of the rank and the left edge of the grid.
pub open spec fn row_label(rank: int) -> Seq<char> {
    if rank == 7 {
        "      8 │"@
    } else if rank == 6 {
        "      7 │"@
    } else if rank == 5 {
        "      6 │"@
    } else if rank == 4 {
        "      5 │"@
    } else if rank == 3 {
        "      4 │"@
    } else if rank == 2 {
        "      3 │"@
    } else if rank == 1 {
        "      2 │"@
    } else {
        "      1 │"@
    }
}

impl<T> Board<T> {
    /// The squares on which `piece` stands; for no piece, the squares on which
    /// nothing stands.
    pub closed spec fn placement(self, piece: PieceType) -> Set<int> {
        match piece {
            PieceType::NoPiece => vacant(self.board@),
            PieceType::WhitePawn => self.white_pawn@,
            PieceType::WhiteKnight => self.white_knight@,
            PieceType::WhiteBishop => self.white_bishop@,
            PieceType::WhiteRook => self.white_rook@,
            PieceType::WhiteQueen => self.white_queen@,
            PieceType::WhiteKing => self.white_king@,
            PieceType::BlackPawn => self.black_pawn@,
            PieceType::BlackKnight => self.black_knight@,
            PieceType::BlackBishop => self.black_bishop@,
            PieceType::BlackRook => self.black_rook@,
            PieceType::BlackQueen => self.black_queen@,
            PieceType::BlackKing => self.black_king@,
        }
    }

    /// The aggregate of the white pieces.
    pub closed spec fn white(self) -> Set<int> {
        self.white_board@
    }

    /// The aggregate of the black pieces.
    pub closed spec fn black(self) -> Set<int> {
        self.black_board@
    }

    /// The aggregate of all pieces.
    pub closed spec fn occupied(self) -> Set<int> {
        self.board@
    }

    /// The union invariant: each aggregate is the union of the masks that it
    /// sums up, and the empty squares are the rest of the board.
    #[verifier::type_invariant]
    pub open spec fn wf(self) -> bool {
        &&& self.white() == self.placement(PieceType::WhitePawn).union(
            self.placement(PieceType::WhiteKnight),
        ).union(self.placement(PieceType::WhiteBishop)).union(
            self.placement(PieceType::WhiteRook),
        ).union(self.placement(PieceType::WhiteQueen)).union(self.placement(PieceType::WhiteKing))
        &&& self.black() == self.placement(PieceType::BlackPawn).union(
            self.placement(PieceType::BlackKnight),
        ).union(self.placement(PieceType::BlackBishop)).union(
            self.placement(PieceType::BlackRook),
        ).union(self.placement(PieceType::BlackQueen)).union(self.placement(PieceType::BlackKing))
        &&& self.occupied() == self.white().union(self.black())
        &&& self.placement(PieceType::NoPiece) == vacant(self.occupied())
        &&& forall|piece: PieceType| within_board(#[trigger] self.placement(piece))
    }

    /// The piece that a lookup reports for square `i`: the first in the order
    /// white pawn, knight, bishop, rook, queen, king, then black pawn, knight,
    /// bishop, rook, queen, king whose mask holds the square, and no piece if
    /// none does.
    pub open spec fn piece_at(self, i: int) -> PieceType {
        if self.placement(PieceType::WhitePawn).contains(i) {
            PieceType::WhitePawn
        } else if self.placement(PieceType::WhiteKnight).contains(i) {
            PieceType::WhiteKnight
        } else if self.placement(PieceType::WhiteBishop).contains(i) {
            PieceType::WhiteBishop
        } else if self.placement(PieceType::WhiteRook).contains(i) {
            PieceType::WhiteRook
        } else if self.placement(PieceType::WhiteQueen).contains(i) {
            PieceType::WhiteQueen
        } else if self.placement(PieceType::WhiteKing).contains(i) {
            PieceType::WhiteKing
        } else if self.placement(PieceType::BlackPawn).contains(i) {
            PieceType::BlackPawn
        } else if self.placement(PieceType::BlackKnight).contains(i) {
            PieceType::BlackKnight
        } else if self.placement(PieceType::BlackBishop).contains(i) {
            PieceType::BlackBishop
        } else if self.placement(PieceType::BlackRook).contains(i) {
            PieceType::BlackRook
        } else if self.placement(PieceType::BlackQueen).contains(i) {
            PieceType::BlackQueen
        } else if self.placement(PieceType::BlackKing).contains(i) {
            PieceType::BlackKing
        } else {
            PieceType::NoPiece
        }
    }

    /// The cell of square `i` in a printed position: the glyph of the piece
    /// found there, then a blank and the edge of the cell.
    pub open spec fn cell(self, i: int) -> Seq<char> {
        seq![self.piece_at(i).glyph()] + " │"@
    }

    /// The first `files` cells of rank `rank`, from file a on.
    pub open spec fn row_cells(self, rank: int, files: int) -> Seq<char>
        decreases files,
    {
        if files <= 0 {
            Seq::<char>::empty()
        } else {
            self.row_cells(rank, files - 1) + self.cell(square_at(files - 1, rank))
        }
    }

    /// The line of rank `rank` in a printed position.
    pub open spec fn row(self, rank: int) -> Seq<char> {
        row_label(rank) + self.row_cells(rank, 8) + "\n"@
    }

    /// The lines of the ranks from rank 8 down to rank `from` (counted from 0),
    /// with a rule between every two of them.
    pub open spec fn rows(self, from: int) -> Seq<char>
        decreases 8 - from,
    {
        if from >= 8 {
            Seq::<char>::empty()
        } else if from == 7 {
            self.row(7)
        } else {
            self.rows(from + 1) + "        ├──┼──┼──┼──┼──┼──┼──┼──┤\n"@ + self.row(from)
        }
    }

    /// The printed position: an 8x8 grid with rank 8 on top and rank 1 at the
    /// bottom, files a to h from left to right, every cell holding the glyph
    /// of its piece or a blank, the rank numbers on the left and the file
    /// letters below.
    pub open spec fn diagram(self) -> Seq<char> {
        "\n        ┌──┬──┬──┬──┬──┬──┬──┬──┐\n"@ + self.rows(0)
            + "        └──┴──┴──┴──┴──┴──┴──┴──┘\n         a  b  c  d  e  f  g  h\n        "@
    }

    /// On a well-formed position the reported piece does stand on the square,
    /// a white piece is reported exactly on the squares of the white
    /// aggregate, a black piece only on squares of the black aggregate, and
    /// no piece exactly on the squares that are not occupied.
    pub proof fn lemma_piece_at(self, i: int)
        requires
            self.wf(),
            on_board(i),
        ensures
            self.placement(self.piece_at(i)).contains(i),
            self.piece_at(i).is_white() == self.white().contains(i),
            self.piece_at(i).is_black() ==> self.black().contains(i),
            (self.piece_at(i) == PieceType::NoPiece) == !self.occupied().contains(i),
    {
    }

    /// Whether no piece is on the board.
    pub fn is_empty(&self) -> (r: bool)
        ensures
            r == (self.occupied() == Set::<int>::empty()),
    {
        self.board.is_empty()
    }

    /// Whether no piece is on `square`.
    pub fn has_empty(&self, square: Square) -> (r: bool)
        ensures
            r == !self.occupied().contains(square.ordinal()),
    {
        !self.board.check(square)
    }

    /// The piece on `square`.
    ///
    /// The colour aggregates are tested first; within a colour the masks of
    /// pawn, knight, bishop, rook and queen are probed in that order, and a
    /// square that is in the aggregate and in none of the five is the king's.
    /// The king's mask is not probed: that the king is there follows from the
    /// union invariant.
    pub fn get_piece(&self, square: Square) -> (r: PieceType)
        ensures
            r == self.piece_at(square.ordinal()),
            self.placement(r).contains(square.ordinal()),
    {
        proof {
            use_type_invariant(self);
            square.lemma_ordinal(square);
            self.lemma_piece_at(square.ordinal());
        }
        let ghost i = square.ordinal();
        if self.white_board.check(square) {
            assert(self.white().contains(i));
            let candidates = [
                (PieceType::WhitePawn, self.white_pawn),
                (PieceType::WhiteKnight, self.white_knight),
                (PieceType::WhiteBishop, self.white_bishop),
                (PieceType::WhiteRook, self.white_rook),
                (PieceType::WhiteQueen, self.white_queen),
            ];
            let r = probe(&candidates, square, PieceType::WhiteKing);
            proof {
                reveal_with_fuel(first_holding, 6);
                let c = candidates@;
                assert(c.drop_first().first() == c[1]);
                assert(c.drop_first().drop_first().first() == c[2]);
                assert(c.drop_first().drop_first().drop_first().first() == c[3]);
                assert(c.drop_first().drop_first().drop_first().drop_first().first() == c[4]);
            }
            return r;
        }
        assert(!self.white().contains(i));
        if self.black_board.check(square) {
            assert(self.black().contains(i));
            let candidates = [
                (PieceType::BlackPawn, self.black_pawn),
                (PieceType::BlackKnight, self.black_knight),
                (PieceType::BlackBishop, self.black_bishop),
                (PieceType::BlackRook, self.black_rook),
                (PieceType::BlackQueen, self.black_queen),
            ];
            let r = probe(&candidates, square, PieceType::BlackKing);
            proof {
                reveal_with_fuel(first_holding, 6);
                let c = candidates@;
                assert(c.drop_first().first() == c[1]);
                assert(c.drop_first().drop_first().first() == c[2]);
                assert(c.drop_first().drop_first().drop_first().first() == c[3]);
                assert(c.drop_first().drop_first().drop_first().drop_first().first() == c[4]);
            }
            return r;
        }
        assert(!self.black().contains(i));
        PieceType::NoPiece
    }
}

impl<T> Board<T> {
    /// The position printed as a grid, rank 8 first and file a first in each
    /// rank.
    pub fn to_string(&self) -> (s: String)
        ensures
            s@ == self.diagram(),
    {
        let mut s = "\n        ┌──┬──┬──┬──┬──┬──┬──┬──┐\n".to_owned();
        let mut rank: u8 = 8;
        while rank > 0
            invariant
                rank <= 8,
                s@ == "\n        ┌──┬──┬──┬──┬──┬──┬──┬──┐\n"@ + self.rows(rank as int),
            decreases rank,
        {
            rank = rank - 1;
            if rank < 7 {
                s.append("        ├──┼──┼──┼──┼──┼──┼──┼──┤\n");
            }
            let ghost before = s@;
            let label = match rank {
                7 => "      8 │",
                6 => "      7 │",
                5 => "      6 │",
                4 => "      5 │",
                3 => "      4 │",
                2 => "      3 │",
                1 => "      2 │",
                _ => "      1 │",
            };
            s.append(label);
            let mut file: u8 = 0;
            while file < 8
                invariant
                    file <= 8,
                    rank < 8,
                    s@ == before + row_label(rank as int) + self.row_cells(
                        rank as int,
                        file as int,
                    ),
                decreases 8 - file,
            {
                proof {
                    lemma_coordinates(file as int, rank as int);
                }
                let found = Square::from_index(rank * 8 + file);
                let square = found.unwrap();
                let piece = self.get_piece(square);
                let glyph = piece.to_string();
                s.append(glyph.as_str());
                s.append(" │");
                file = file + 1;
                assert(s@ =~= before + row_label(rank as int) + self.row_cells(
                    rank as int,
                    file as int,
                ));
            }
            s.append("\n");
            assert(s@ =~= "\n        ┌──┬──┬──┬──┬──┬──┬──┬──┐\n"@ + self.rows(rank as int));
        }
        s.append("        └──┴──┴──┴──┴──┴──┴──┴──┘\n         a  b  c  d  e  f  g  h\n        ");
        s
    }
}

impl Default for Board<White> {
    /// The starting position, White to move.
    fn default() -> (r: Self)
        ensures
            r.wf(),
            forall|piece: PieceType| #[trigger] r.placement(piece) == starting_squares(piece),
    {
        let board = BitBoard::from(0xFFFF_0000_0000_FFFFu64);
        let white_board = BitBoard::from(0xFFFFu64);
        let black_board = BitBoard::from(0xFFFF_0000_0000_0000u64);
        let white_pawn = BitBoard::from(0xFF00u64);
        let white_knight = BitBoard::from(0x42u64);
        let white_bishop = BitBoard::from(0x24u64);
        let white_rook = BitBoard::from(0x81u64);
        let white_queen = BitBoard::from(0x08u64);
        let white_king = BitBoard::from(0x10u64);
        let black_pawn = BitBoard::from(0x00FF_0000_0000_0000u64);
        let black_knight = BitBoard::from(0x4200_0000_0000_0000u64);
        let black_bishop = BitBoard::from(0x2400_0000_0000_0000u64);
        let black_rook = BitBoard::from(0x8100_0000_0000_0000u64);
        let black_queen = BitBoard::from(0x0800_0000_0000_0000u64);
        let black_king = BitBoard::from(0x1000_0000_0000_0000u64);
        proof {
            lemma_starting_words();
            assert(white_board@ =~= white_pawn@.union(white_knight@).union(white_bishop@).union(
                white_rook@,
            ).union(white_queen@).union(white_king@));
            assert(black_board@ =~= black_pawn@.union(black_knight@).union(black_bishop@).union(
                black_rook@,
            ).union(black_queen@).union(black_king@));
            assert(board@ =~= white_board@.union(black_board@));
            assert(vacant(board@) =~= starting_squares(PieceType::NoPiece));
        }
        let r = Board {
            board,
            white_board,
            black_board,
            white_pawn,
            white_knight,
            white_bishop,
            white_rook,
            white_queen,
            white_king,
            black_pawn,
            black_knight,
            black_bishop,
            black_rook,
            black_queen,
            black_king,
            turn: PhantomData,
        };
        r
    }
}

} // verus!

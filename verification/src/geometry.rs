//! The board as mathematics: a square is its index `0..64` (`0` is a1, `7` is
//! h1, `56` is a8, `63` is h8), a position mask is a set of such indices, and
//! every reflection and rotation is a map on indices.
//!
//! Nothing in this module touches machine words. The bit-level code elsewhere
//! is proved against these definitions, and the algebraic laws of the
//! transforms are proved here once, over sets.

use vstd::prelude::*;
use vstd::relations::injective_on;
use vstd::set_lib::lemma_map_size;

verus! {

/// `i` names one of the 64 squares.
pub open spec fn on_board(i: int) -> bool {
    0 <= i < 64
}

/// File of square `i`: `0` for file a up to `7` for file h.
pub open spec fn file_of(i: int) -> int {
    i % 8
}

/// Rank of square `i`: `0` for rank 1 up to `7` for rank 8.
pub open spec fn rank_of(i: int) -> int {
    i / 8
}

/// Index of the square on the given file and rank.
pub open spec fn square_at(file: int, rank: int) -> int {
    rank * 8 + file
}

/// All 64 squares.
pub open spec fn all_squares() -> Set<int> {
    Set::new(|i: int| on_board(i))
}

/// Every member of `s` is a square of the board.
pub open spec fn within_board(s: Set<int>) -> bool {
    forall|i: int| #[trigger] s.contains(i) ==> on_board(i)
}

/// The squares of the board that are not in `s`.
pub open spec fn vacant(s: Set<int>) -> Set<int> {
    Set::new(|i: int| on_board(i) && !s.contains(i))
}

/// The members of `s` that are squares with index below `n`.
pub open spec fn below(s: Set<int>, n: int) -> Set<int> {
    Set::new(|i: int| 0 <= i < n && s.contains(i))
}

/// How many of the squares `0..n` are in `s`.
pub open spec fn count_below(s: Set<int>, n: int) -> nat
    decreases n,
{
    if n <= 0 {
        0
    } else {
        count_below(s, n - 1) + if s.contains(n - 1) {
            1nat
        } else {
            0nat
        }
    }
}

/// `below(s, n)` is finite and `count_below(s, n)` is its size.
pub proof fn lemma_count_below(s: Set<int>, n: int)
    requires
        0 <= n,
    ensures
        below(s, n).finite(),
        below(s, n).len() == count_below(s, n),
    decreases n,
{
    if n == 0 {
        assert(below(s, n) =~= Set::<int>::empty());
    } else {
        lemma_count_below(s, n - 1);
        if s.contains(n - 1) {
            assert(below(s, n) =~= below(s, n - 1).insert(n - 1));
        } else {
            assert(below(s, n) =~= below(s, n - 1));
        }
    }
}

/// A set of squares is finite, and its size is the count over all 64 indices.
pub proof fn lemma_board_set_len(s: Set<int>)
    requires
        within_board(s),
    ensures
        s.finite(),
        s.len() == count_below(s, 64),
        s.len() <= 64,
{
    lemma_count_below(s, 64);
    assert(below(s, 64) =~= s);
    lemma_count_below_bound(s, 64);
}

/// At most `n` of the squares `0..n` are in `s`.
pub proof fn lemma_count_below_bound(s: Set<int>, n: int)
    requires
        0 <= n,
    ensures
        count_below(s, n) <= n,
    decreases n,
{
    if n > 0 {
        lemma_count_below_bound(s, n - 1);
    }
}

/// 1 if square `i` is in `s`, else 0.
pub open spec fn occupancy(s: Set<int>, i: int) -> nat {
    if s.contains(i) {
        1
    } else {
        0
    }
}

/// The count over one more rank is the count so far plus the occupancy of
/// the eight squares of that rank.
pub proof fn lemma_count_rank(s: Set<int>, rank: int)
    requires
        0 <= rank < 8,
    ensures
        count_below(s, 8 * rank + 8) == count_below(s, 8 * rank) + occupancy(s, 8 * rank)
            + occupancy(s, 8 * rank + 1) + occupancy(s, 8 * rank + 2) + occupancy(
            s,
            8 * rank + 3,
        ) + occupancy(s, 8 * rank + 4) + occupancy(s, 8 * rank + 5) + occupancy(s, 8 * rank + 6)
            + occupancy(s, 8 * rank + 7),
{
    let n = 8 * rank;
    assert(count_below(s, n + 1) == count_below(s, n) + occupancy(s, n));
    assert(count_below(s, n + 2) == count_below(s, n + 1) + occupancy(s, n + 1));
    assert(count_below(s, n + 3) == count_below(s, n + 2) + occupancy(s, n + 2));
    assert(count_below(s, n + 4) == count_below(s, n + 3) + occupancy(s, n + 3));
    assert(count_below(s, n + 5) == count_below(s, n + 4) + occupancy(s, n + 4));
    assert(count_below(s, n + 6) == count_below(s, n + 5) + occupancy(s, n + 5));
    assert(count_below(s, n + 7) == count_below(s, n + 6) + occupancy(s, n + 6));
    assert(count_below(s, n + 8) == count_below(s, n + 7) + occupancy(s, n + 7));
}

/// Among the squares `0..n`, those in `s` and those not in `s` add up to `n`.
pub proof fn lemma_count_below_vacant(s: Set<int>, n: int)
    requires
        0 <= n <= 64,
    ensures
        count_below(s, n) + count_below(vacant(s), n) == n,
    decreases n,
{
    if n > 0 {
        lemma_count_below_vacant(s, n - 1);
    }
}

/// A set of squares and the rest of the board together have 64 members.
pub proof fn lemma_vacant_len(s: Set<int>)
    requires
        within_board(s),
    ensures
        s.len() + vacant(s).len() == 64,
{
    lemma_board_set_len(s);
    lemma_board_set_len(vacant(s));
    lemma_count_below_vacant(s, 64);
}

/// The whole board has 64 squares and nothing is vacant on it.
pub proof fn lemma_all_squares()
    ensures
        within_board(all_squares()),
        all_squares().len() == 64,
        vacant(all_squares()) == Set::<int>::empty(),
        vacant(Set::<int>::empty()) == all_squares(),
{
    assert(vacant(all_squares()) =~= Set::<int>::empty());
    assert(vacant(Set::<int>::empty()) =~= all_squares());
    lemma_vacant_len(all_squares());
}

/// Where square `i` lies after the ranks are reversed (rank 1 with rank 8, ...).
pub open spec fn mirror_vertical(i: int) -> int {
    square_at(file_of(i), 7 - rank_of(i))
}

/// Where square `i` lies after the files are reversed (file a with file h, ...).
pub open spec fn mirror_horizontal(i: int) -> int {
    square_at(7 - file_of(i), rank_of(i))
}

/// Where square `i` lies after reflection in the a1-h8 diagonal: file and rank
/// change places.
pub open spec fn mirror_diagonal(i: int) -> int {
    square_at(rank_of(i), file_of(i))
}

/// Where square `i` lies after reflection in the h1-a8 diagonal.
pub open spec fn mirror_antidiagonal(i: int) -> int {
    square_at(7 - rank_of(i), 7 - file_of(i))
}

/// Where square `i` lies after a clockwise quarter turn of the board
/// (a1 goes to a8, a8 to h8, h8 to h1, h1 to a1).
pub open spec fn turn_clockwise(i: int) -> int {
    square_at(rank_of(i), 7 - file_of(i))
}

/// Where square `i` lies after a counter-clockwise quarter turn of the board
/// (a1 goes to h1, h1 to h8, h8 to a8, a8 to a1).
pub open spec fn turn_counterclockwise(i: int) -> int {
    square_at(7 - rank_of(i), file_of(i))
}

/// Where square `i` lies after a half turn of the board.
pub open spec fn turn_half(i: int) -> int {
    square_at(7 - file_of(i), 7 - rank_of(i))
}

/// The set `s` with its ranks reversed.
pub open spec fn flipped_vertical(s: Set<int>) -> Set<int> {
    Set::new(|i: int| on_board(i) && s.contains(mirror_vertical(i)))
}

/// The set `s` with its files reversed.
pub open spec fn flipped_horizontal(s: Set<int>) -> Set<int> {
    Set::new(|i: int| on_board(i) && s.contains(mirror_horizontal(i)))
}

/// The set `s` reflected in the a1-h8 diagonal.
pub open spec fn flipped_diagonal(s: Set<int>) -> Set<int> {
    Set::new(|i: int| on_board(i) && s.contains(mirror_diagonal(i)))
}

/// The set `s` reflected in the h1-a8 diagonal.
pub open spec fn flipped_antidiagonal(s: Set<int>) -> Set<int> {
    Set::new(|i: int| on_board(i) && s.contains(mirror_antidiagonal(i)))
}

/// The set `s` after a clockwise quarter turn: square `i` is in the result
/// exactly when the square that turns onto `i` was in `s`.
pub open spec fn rotated_clockwise(s: Set<int>) -> Set<int> {
    Set::new(|i: int| on_board(i) && s.contains(turn_counterclockwise(i)))
}

/// The set `s` after a counter-clockwise quarter turn.
pub open spec fn rotated_counterclockwise(s: Set<int>) -> Set<int> {
    Set::new(|i: int| on_board(i) && s.contains(turn_clockwise(i)))
}

/// The set `s` after a half turn.
pub open spec fn rotated_half(s: Set<int>) -> Set<int> {
    Set::new(|i: int| on_board(i) && s.contains(turn_half(i)))
}

/// The set `s` moved `n` squares towards h8; what passes h8 is lost.
pub open spec fn shifted_up(s: Set<int>, n: int) -> Set<int> {
    Set::new(|i: int| on_board(i) && on_board(i - n) && s.contains(i - n))
}

/// The set `s` moved `n` squares towards a1; what passes a1 is lost.
pub open spec fn shifted_down(s: Set<int>, n: int) -> Set<int> {
    Set::new(|i: int| on_board(i) && on_board(i + n) && s.contains(i + n))
}

/// The lowest square of a set, or 64 for the empty set: the number `t` in
/// `0..=64` such that no square below `t` is in `s` and, if `t < 64`, square
/// `t` is.
pub open spec fn is_lowest_square(s: Set<int>, t: int) -> bool {
    &&& 0 <= t <= 64
    &&& t < 64 ==> s.contains(t)
    &&& forall|i: int| 0 <= i < t ==> !s.contains(i)
}

/// The distance of the highest square of a set from h8, or 64 for the empty
/// set: the number `t` in `0..=64` such that none of the `t` squares at the
/// top is in `s` and, if `t < 64`, the next square below them is.
pub open spec fn is_highest_gap(s: Set<int>, t: int) -> bool {
    &&& 0 <= t <= 64
    &&& t < 64 ==> s.contains(63 - t)
    &&& forall|i: int| 63 - t < i < 64 ==> !s.contains(i)
}

/// File and rank are the coordinates of a square: each square has exactly one
/// pair, and each pair names exactly one square.
pub proof fn lemma_coordinates(file: int, rank: int)
    requires
        0 <= file < 8,
        0 <= rank < 8,
    ensures
        on_board(square_at(file, rank)),
        file_of(square_at(file, rank)) == file,
        rank_of(square_at(file, rank)) == rank,
{
}

/// A square is the one on its own file and rank.
pub proof fn lemma_square_of_coordinates(i: int)
    requires
        on_board(i),
    ensures
        0 <= file_of(i) < 8,
        0 <= rank_of(i) < 8,
        square_at(file_of(i), rank_of(i)) == i,
{
}

/// Each map on squares sends the board onto itself, and the quarter turns undo
/// one another.
pub proof fn lemma_square_maps(i: int)
    requires
        on_board(i),
    ensures
        on_board(mirror_vertical(i)),
        on_board(mirror_horizontal(i)),
        on_board(mirror_diagonal(i)),
        on_board(mirror_antidiagonal(i)),
        on_board(turn_clockwise(i)),
        on_board(turn_counterclockwise(i)),
        on_board(turn_half(i)),
        mirror_vertical(mirror_vertical(i)) == i,
        mirror_horizontal(mirror_horizontal(i)) == i,
        mirror_diagonal(mirror_diagonal(i)) == i,
        mirror_antidiagonal(mirror_antidiagonal(i)) == i,
        turn_half(turn_half(i)) == i,
        turn_half(i) == 63 - i,
        turn_counterclockwise(turn_clockwise(i)) == i,
        turn_clockwise(turn_counterclockwise(i)) == i,
        turn_clockwise(turn_clockwise(i)) == turn_half(i),
        turn_counterclockwise(turn_counterclockwise(i)) == turn_half(i),
        turn_clockwise(i) == mirror_vertical(mirror_diagonal(i)),
        turn_counterclockwise(i) == mirror_diagonal(mirror_vertical(i)),
        turn_half(i) == mirror_horizontal(mirror_vertical(i)),
        turn_half(i) == mirror_vertical(mirror_horizontal(i)),
{
    let f = file_of(i);
    let r = rank_of(i);
    lemma_square_of_coordinates(i);
    lemma_coordinates(f, r);
    lemma_coordinates(f, 7 - r);
    lemma_coordinates(7 - f, r);
    lemma_coordinates(r, f);
    lemma_coordinates(7 - r, 7 - f);
    lemma_coordinates(r, 7 - f);
    lemma_coordinates(7 - r, f);
    lemma_coordinates(7 - f, 7 - r);
}

/// A piece on square `i` is found, after each transform, on the square that
/// the transform's map gives.
pub proof fn lemma_transform_moves_square(s: Set<int>, i: int)
    requires
        on_board(i),
    ensures
        flipped_vertical(s).contains(mirror_vertical(i)) == s.contains(i),
        flipped_horizontal(s).contains(mirror_horizontal(i)) == s.contains(i),
        flipped_diagonal(s).contains(mirror_diagonal(i)) == s.contains(i),
        flipped_antidiagonal(s).contains(mirror_antidiagonal(i)) == s.contains(i),
        rotated_clockwise(s).contains(turn_clockwise(i)) == s.contains(i),
        rotated_counterclockwise(s).contains(turn_counterclockwise(i)) == s.contains(i),
        rotated_half(s).contains(turn_half(i)) == s.contains(i),
{
    lemma_square_maps(i);
}

/// Each of the four reflections, applied twice, gives the set back.
pub proof fn lemma_flip_twice(s: Set<int>)
    requires
        within_board(s),
    ensures
        flipped_vertical(flipped_vertical(s)) == s,
        flipped_horizontal(flipped_horizontal(s)) == s,
        flipped_diagonal(flipped_diagonal(s)) == s,
        flipped_antidiagonal(flipped_antidiagonal(s)) == s,
{
    assert forall|i: int| on_board(i) implies mirror_vertical(mirror_vertical(i)) == i
        && mirror_horizontal(mirror_horizontal(i)) == i && mirror_diagonal(mirror_diagonal(i))
        == i && mirror_antidiagonal(mirror_antidiagonal(i)) == i && on_board(mirror_vertical(i))
        && on_board(mirror_horizontal(i)) && on_board(mirror_diagonal(i)) && on_board(
        mirror_antidiagonal(i),
    ) by {
        lemma_square_maps(i);
    }
    assert(flipped_vertical(flipped_vertical(s)) =~= s);
    assert(flipped_horizontal(flipped_horizontal(s)) =~= s);
    assert(flipped_diagonal(flipped_diagonal(s)) =~= s);
    assert(flipped_antidiagonal(flipped_antidiagonal(s)) =~= s);
}

/// The rotations are the compositions of reflections that define them: a
/// clockwise quarter turn is the diagonal flip followed by the vertical flip,
/// a counter-clockwise one is the vertical flip followed by the diagonal
/// flip, and a half turn is the vertical and the horizontal flip in either
/// order.
pub proof fn lemma_rotations_from_flips(s: Set<int>)
    ensures
        rotated_clockwise(s) == flipped_vertical(flipped_diagonal(s)),
        rotated_counterclockwise(s) == flipped_diagonal(flipped_vertical(s)),
        rotated_half(s) == flipped_horizontal(flipped_vertical(s)),
        rotated_half(s) == flipped_vertical(flipped_horizontal(s)),
{
    assert forall|i: int| on_board(i) implies on_board(mirror_vertical(i)) && on_board(
        mirror_horizontal(i),
    ) && on_board(mirror_diagonal(i)) && turn_counterclockwise(i) == mirror_diagonal(
        mirror_vertical(i),
    ) && turn_clockwise(i) == mirror_vertical(mirror_diagonal(i)) && turn_half(i)
        == mirror_vertical(mirror_horizontal(i)) && turn_half(i) == mirror_horizontal(
        mirror_vertical(i),
    ) by {
        lemma_square_maps(i);
    }
    assert(rotated_clockwise(s) =~= flipped_vertical(flipped_diagonal(s)));
    assert(rotated_counterclockwise(s) =~= flipped_diagonal(flipped_vertical(s)));
    assert(rotated_half(s) =~= flipped_horizontal(flipped_vertical(s)));
    assert(rotated_half(s) =~= flipped_vertical(flipped_horizontal(s)));
}

/// Two clockwise quarter turns are a half turn, three are a counter-clockwise
/// quarter turn, and four give the set back; a half turn is its own inverse.
pub proof fn lemma_rotation_cycle(s: Set<int>)
    requires
        within_board(s),
    ensures
        rotated_clockwise(rotated_clockwise(s)) == rotated_half(s),
        rotated_clockwise(rotated_clockwise(rotated_clockwise(s))) == rotated_counterclockwise(s),
        rotated_clockwise(rotated_clockwise(rotated_clockwise(rotated_clockwise(s)))) == s,
        rotated_half(rotated_half(s)) == s,
        rotated_counterclockwise(rotated_clockwise(s)) == s,
        rotated_clockwise(rotated_counterclockwise(s)) == s,
{
    assert forall|i: int| on_board(i) implies on_board(turn_clockwise(i)) && on_board(
        turn_counterclockwise(i),
    ) && on_board(turn_half(i)) && turn_counterclockwise(turn_counterclockwise(i)) == turn_half(
        i,
    ) && turn_clockwise(turn_counterclockwise(i)) == i && turn_counterclockwise(
        turn_clockwise(i),
    ) == i && turn_half(turn_half(i)) == i by {
        lemma_square_maps(i);
    }
    let twice = rotated_clockwise(rotated_clockwise(s));
    assert(twice =~= rotated_half(s));
    assert forall|i: int| on_board(i) implies turn_counterclockwise(turn_half(i))
        == turn_clockwise(i) && turn_half(turn_half(i)) == i by {
        lemma_square_maps(i);
        lemma_square_maps(turn_half(i));
        lemma_square_maps(turn_counterclockwise(i));
    }
    assert(rotated_clockwise(rotated_half(s)) =~= rotated_counterclockwise(s));
    assert(rotated_clockwise(rotated_counterclockwise(s)) =~= s);
    assert(rotated_half(rotated_half(s)) =~= s);
    assert(rotated_counterclockwise(rotated_clockwise(s)) =~= s);
}

/// A set of squares moved by a map that sends the board onto itself, one
/// square to one square, keeps its size.
proof fn lemma_relocated_len(
    s: Set<int>,
    t: Set<int>,
    to: spec_fn(int) -> int,
    back: spec_fn(int) -> int,
)
    requires
        within_board(s),
        forall|i: int| on_board(i) ==> on_board(#[trigger] to(i)) && back(to(i)) == i,
        forall|i: int| on_board(i) ==> on_board(#[trigger] back(i)) && to(back(i)) == i,
        forall|j: int| #[trigger] t.contains(j) == (on_board(j) && s.contains(back(j))),
    ensures
        t.len() == s.len(),
{
    lemma_board_set_len(s);
    assert forall|j: int| s.map(to).contains(j) == t.contains(j) by {
        if s.map(to).contains(j) {
            let x = choose|x: int| s.contains(x) && j == to(x);
            assert(back(to(x)) == x);
        }
        if t.contains(j) {
            assert(s.contains(back(j)) && j == to(back(j)));
        }
    }
    assert(s.map(to) =~= t);
    assert(injective_on(to, s)) by {
        assert forall|x1: int, x2: int|
            s.contains(x1) && s.contains(x2) && #[trigger] to(x1) == #[trigger] to(
                x2,
            ) implies x1 == x2 by {
            assert(back(to(x1)) == x1);
            assert(back(to(x2)) == x2);
        }
    }
    lemma_map_size(s, t, to);
}

/// Every reflection and rotation keeps the number of squares.
pub proof fn lemma_transform_len(s: Set<int>)
    requires
        within_board(s),
    ensures
        flipped_vertical(s).len() == s.len(),
        flipped_horizontal(s).len() == s.len(),
        flipped_diagonal(s).len() == s.len(),
        flipped_antidiagonal(s).len() == s.len(),
        rotated_clockwise(s).len() == s.len(),
        rotated_counterclockwise(s).len() == s.len(),
        rotated_half(s).len() == s.len(),
{
    assert forall|i: int| on_board(i) implies {
        &&& on_board(mirror_vertical(i)) && mirror_vertical(mirror_vertical(i)) == i
        &&& on_board(mirror_horizontal(i)) && mirror_horizontal(mirror_horizontal(i)) == i
        &&& on_board(mirror_diagonal(i)) && mirror_diagonal(mirror_diagonal(i)) == i
        &&& on_board(mirror_antidiagonal(i)) && mirror_antidiagonal(mirror_antidiagonal(i)) == i
        &&& on_board(turn_clockwise(i)) && turn_counterclockwise(turn_clockwise(i)) == i
        &&& on_board(turn_counterclockwise(i)) && turn_clockwise(turn_counterclockwise(i)) == i
        &&& on_board(turn_half(i)) && turn_half(turn_half(i)) == i
    } by {
        lemma_square_maps(i);
    }
    lemma_relocated_len(
        s,
        flipped_vertical(s),
        |i: int| mirror_vertical(i),
        |i: int| mirror_vertical(i),
    );
    lemma_relocated_len(
        s,
        flipped_horizontal(s),
        |i: int| mirror_horizontal(i),
        |i: int| mirror_horizontal(i),
    );
    lemma_relocated_len(
        s,
        flipped_diagonal(s),
        |i: int| mirror_diagonal(i),
        |i: int| mirror_diagonal(i),
    );
    lemma_relocated_len(
        s,
        flipped_antidiagonal(s),
        |i: int| mirror_antidiagonal(i),
        |i: int| mirror_antidiagonal(i),
    );
    lemma_relocated_len(
        s,
        rotated_clockwise(s),
        |i: int| turn_clockwise(i),
        |i: int| turn_counterclockwise(i),
    );
    lemma_relocated_len(
        s,
        rotated_counterclockwise(s),
        |i: int| turn_counterclockwise(i),
        |i: int| turn_clockwise(i),
    );
    lemma_relocated_len(s, rotated_half(s), |i: int| turn_half(i), |i: int| turn_half(i));
}

} // verus!

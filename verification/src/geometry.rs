use vstd::prelude::*;
use crate::bits::{u128_bit, lemma_u128_bitwise, lemma_u128_single};
use crate::bitboard::{Bitboard, is_valid_field, row_mask, column_mask, lemma_board_constants, lemma_has_ext};

verus! {

/// The word whose bit `j < n` is `f(base + j)`.
pub open spec fn word_of(f: spec_fn(int) -> bool, base: int, n: nat) -> u128
    decreases n,
{
    if n == 0 {
        0
    } else {
        word_of(f, base, (n - 1) as nat) | if f(base + n - 1) {
            1u128 << ((n - 1) as u128)
        } else {
            0u128
        }
    }
}

/// The board whose bit `i` is set exactly when `f(i)` holds, for `0 <= i < 512`.
pub open spec fn board_of(f: spec_fn(int) -> bool) -> Bitboard {
    Bitboard(word_of(f, 384, 128), word_of(f, 256, 128), word_of(f, 128, 128), word_of(f, 0, 128))
}

pub proof fn lemma_word_of(f: spec_fn(int) -> bool, base: int, n: nat)
    requires
        n <= 128,
    ensures
        forall|j: int| #[trigger] u128_bit(word_of(f, base, n), j) == (0 <= j < n && f(base + j)),
    decreases n,
{
    lemma_u128_single(0);
    if n > 0 {
        lemma_word_of(f, base, (n - 1) as nat);
        let x = word_of(f, base, (n - 1) as nat);
        let b = if f(base + n - 1) { 1u128 << ((n - 1) as u128) } else { 0u128 };
        lemma_u128_bitwise(x, b);
        lemma_u128_single((n - 1) as u128);
    }
}

/// The bits of `board_of(f)` are those of `f` on `0..512`.
pub proof fn lemma_board_of(f: spec_fn(int) -> bool)
    ensures
        forall|i: int| #[trigger] board_of(f).has(i) == (0 <= i < 512 && f(i)),
{
    lemma_word_of(f, 0, 128);
    lemma_word_of(f, 128, 128);
    lemma_word_of(f, 256, 128);
    lemma_word_of(f, 384, 128);
    assert forall|i: int| #[trigger] board_of(f).has(i) == (0 <= i < 512 && f(i)) by {
        if 0 <= i < 128 {
            assert(u128_bit(word_of(f, 0, 128), i) == f(0 + i));
        } else if 128 <= i < 256 {
            assert(u128_bit(word_of(f, 128, 128), i - 128) == f(128 + (i - 128)));
        } else if 256 <= i < 384 {
            assert(u128_bit(word_of(f, 256, 128), i - 256) == f(256 + (i - 256)));
        } else if 384 <= i < 512 {
            assert(u128_bit(word_of(f, 384, 128), i - 384) == f(384 + (i - 384)));
        }
    }
}

/// A board is `board_of` of its set bits.
proof fn lemma_is_board_of(b: Bitboard, f: spec_fn(int) -> bool)
    requires
        forall|i: int| #[trigger] b.has(i) == (0 <= i < 512 && f(i)),
    ensures
        b == board_of(f),
{
    lemma_board_of(f);
    assert forall|i: int| #[trigger] b.has(i) == board_of(f).has(i) by {
    }
    lemma_has_ext(b, board_of(f));
}

/// The field that `flip` moves to field `i`: same column, row `19 - y`.
pub open spec fn flip_source(i: int) -> int {
    i % 21 + 21 * (19 - i / 21)
}

/// The field that `mirror` moves to field `i`: column `19 - x`, same row.
pub open spec fn mirror_source(i: int) -> int {
    (19 - i % 21) + 21 * (i / 21)
}

/// The field that `mirror_diagonal` moves to field `i`: column and row swapped.
pub open spec fn diagonal_source(i: int) -> int {
    i / 21 + 21 * (i % 21)
}

/// The fields of `b` on the 20x20 board.
pub open spec fn on_board(b: Bitboard) -> Bitboard {
    board_of(|i: int| is_valid_field(i) && b.has(i))
}

/// `b` upside down on the 20x20 board.
pub open spec fn flip_spec(b: Bitboard) -> Bitboard {
    board_of(|i: int| is_valid_field(i) && b.has(flip_source(i)))
}

/// `b` left to right on the 20x20 board.
pub open spec fn mirror_spec(b: Bitboard) -> Bitboard {
    board_of(|i: int| is_valid_field(i) && b.has(mirror_source(i)))
}

/// `b` mirrored at the diagonal through the top left corner of the 20x20 board.
pub open spec fn diagonal_spec(b: Bitboard) -> Bitboard {
    board_of(|i: int| is_valid_field(i) && b.has(diagonal_source(i)))
}

/// `b` turned a quarter anticlockwise.
pub open spec fn rotate_left_spec(b: Bitboard) -> Bitboard {
    flip_spec(diagonal_spec(b))
}

/// `b` turned a quarter clockwise.
pub open spec fn rotate_right_spec(b: Bitboard) -> Bitboard {
    mirror_spec(diagonal_spec(b))
}

proof fn lemma_field_parts(i: int)
    requires
        is_valid_field(i),
    ensures
        0 <= i % 21 < 20,
        0 <= i / 21 < 20,
        i == i % 21 + 21 * (i / 21),
        is_valid_field(flip_source(i)),
        is_valid_field(mirror_source(i)),
        is_valid_field(diagonal_source(i)),
        flip_source(flip_source(i)) == i,
        mirror_source(mirror_source(i)) == i,
        diagonal_source(diagonal_source(i)) == i,
        flip_source(i) % 21 == i % 21,
        flip_source(i) / 21 == 19 - i / 21,
        mirror_source(i) % 21 == 19 - i % 21,
        mirror_source(i) / 21 == i / 21,
        diagonal_source(i) % 21 == i / 21,
        diagonal_source(i) / 21 == i % 21,
{
    let x = i % 21;
    let y = i / 21;
    assert(i == x + 21 * y);
    assert(0 <= y < 20);
    assert((x + 21 * (19 - y)) % 21 == x && (x + 21 * (19 - y)) / 21 == 19 - y) by (nonlinear_arith)
        requires 0 <= x < 20, 0 <= y < 20;
    assert(((19 - x) + 21 * y) % 21 == 19 - x && ((19 - x) + 21 * y) / 21 == y) by (nonlinear_arith)
        requires 0 <= x < 20, 0 <= y < 20;
    assert((y + 21 * x) % 21 == y && (y + 21 * x) / 21 == x) by (nonlinear_arith)
        requires 0 <= x < 20, 0 <= y < 20;
}

/// Every field of the 20x20 board comes from one field and goes to one field under each of the
/// three mirrors.
pub proof fn lemma_field_maps()
    ensures
        forall|i: int| #[trigger] is_valid_field(i) ==> {
            &&& is_valid_field(flip_source(i))
            &&& is_valid_field(mirror_source(i))
            &&& is_valid_field(diagonal_source(i))
            &&& flip_source(flip_source(i)) == i
            &&& mirror_source(mirror_source(i)) == i
            &&& diagonal_source(diagonal_source(i)) == i
        },
{
    assert forall|i: int| #[trigger] is_valid_field(i) implies {
        &&& is_valid_field(flip_source(i))
        &&& is_valid_field(mirror_source(i))
        &&& is_valid_field(diagonal_source(i))
        &&& flip_source(flip_source(i)) == i
        &&& mirror_source(mirror_source(i)) == i
        &&& diagonal_source(diagonal_source(i)) == i
    } by {
        lemma_field_parts(i);
    }
}

/// The bits of the boards that the mirrors give.
pub proof fn lemma_geometry_bits(b: Bitboard)
    ensures
        forall|i: int| #[trigger] on_board(b).has(i) == (is_valid_field(i) && b.has(i)),
        forall|i: int| #[trigger] flip_spec(b).has(i) == (is_valid_field(i) && b.has(flip_source(i))),
        forall|i: int| #[trigger] mirror_spec(b).has(i) == (is_valid_field(i) && b.has(mirror_source(i))),
        forall|i: int|
            #[trigger] diagonal_spec(b).has(i) == (is_valid_field(i) && b.has(diagonal_source(i))),
{
    lemma_board_of(|i: int| is_valid_field(i) && b.has(i));
    lemma_board_of(|i: int| is_valid_field(i) && b.has(flip_source(i)));
    lemma_board_of(|i: int| is_valid_field(i) && b.has(mirror_source(i)));
    lemma_board_of(|i: int| is_valid_field(i) && b.has(diagonal_source(i)));
}

/// Flipping, mirroring or mirroring at the diagonal twice gives back the board's fields on the
/// 20x20 board.
pub proof fn lemma_mirrors_undo(b: Bitboard)
    ensures
        flip_spec(flip_spec(b)) == on_board(b),
        mirror_spec(mirror_spec(b)) == on_board(b),
        diagonal_spec(diagonal_spec(b)) == on_board(b),
{
    lemma_field_maps();
    lemma_geometry_bits(b);
    lemma_geometry_bits(flip_spec(b));
    lemma_geometry_bits(mirror_spec(b));
    lemma_geometry_bits(diagonal_spec(b));
    assert forall|i: int| #[trigger] flip_spec(flip_spec(b)).has(i) == on_board(b).has(i) by {
        if is_valid_field(i) {
            assert(flip_spec(b).has(flip_source(i)) == b.has(flip_source(flip_source(i))));
        }
    }
    assert forall|i: int| #[trigger] mirror_spec(mirror_spec(b)).has(i) == on_board(b).has(i) by {
        if is_valid_field(i) {
            assert(mirror_spec(b).has(mirror_source(i)) == b.has(mirror_source(mirror_source(i))));
        }
    }
    assert forall|i: int| #[trigger] diagonal_spec(diagonal_spec(b)).has(i) == on_board(b).has(i) by {
        if is_valid_field(i) {
            assert(diagonal_spec(b).has(diagonal_source(i)) == b.has(
                diagonal_source(diagonal_source(i)),
            ));
        }
    }
    lemma_has_ext(flip_spec(flip_spec(b)), on_board(b));
    lemma_has_ext(mirror_spec(mirror_spec(b)), on_board(b));
    lemma_has_ext(diagonal_spec(diagonal_spec(b)), on_board(b));
}

/// The field that a quarter turn left moves to field `i`.
pub open spec fn left_source(i: int) -> int {
    diagonal_source(flip_source(i))
}

/// The field that a quarter turn right moves to field `i`.
pub open spec fn right_source(i: int) -> int {
    diagonal_source(mirror_source(i))
}

proof fn lemma_turn_bits(c: Bitboard)
    ensures
        forall|j: int| #[trigger] rotate_left_spec(c).has(j) == (is_valid_field(j) && c.has(left_source(j))),
        forall|j: int| #[trigger] rotate_right_spec(c).has(j) == (is_valid_field(j) && c.has(right_source(j))),
{
    lemma_field_maps();
    lemma_geometry_bits(c);
    lemma_geometry_bits(diagonal_spec(c));
}

proof fn lemma_turn_sources(i: int)
    requires
        is_valid_field(i),
    ensures
        is_valid_field(left_source(i)),
        is_valid_field(right_source(i)),
        right_source(left_source(i)) == i,
        left_source(right_source(i)) == i,
        left_source(left_source(left_source(left_source(i)))) == i,
{
    let x = i % 21;
    let y = i / 21;
    lemma_field_parts(i);
    lemma_field_parts(flip_source(i));
    lemma_field_parts(mirror_source(i));
    // a quarter turn left takes (x, y) from (19 - y, x), a quarter turn right from (y, 19 - x)
    assert(left_source(i) == (19 - y) + 21 * x);
    assert(right_source(i) == y + 21 * (19 - x));
    lemma_coords(19 - y, x);
    lemma_coords(y, 19 - x);
    lemma_coords(x, y);
    lemma_coords(19 - x, 19 - y);
    lemma_coords(y, 19 - x);
    let l1 = left_source(i);
    lemma_field_parts(l1);
    lemma_field_parts(flip_source(l1));
    lemma_field_parts(mirror_source(l1));
    let r1 = right_source(i);
    lemma_field_parts(r1);
    lemma_field_parts(flip_source(r1));
    assert(right_source(l1) == i);
    assert(left_source(r1) == i);
    let l2 = left_source(l1);
    assert(l2 == (19 - x) + 21 * (19 - y));
    lemma_field_parts(l2);
    lemma_field_parts(flip_source(l2));
    let l3 = left_source(l2);
    assert(l3 == y + 21 * (19 - x));
    lemma_field_parts(l3);
    lemma_field_parts(flip_source(l3));
    assert(left_source(l3) == i);
}

/// A quarter turn left undoes a quarter turn right and the other way round, and four quarter
/// turns left give back the board's fields on the 20x20 board.
pub proof fn lemma_rotations(b: Bitboard)
    ensures
        rotate_left_spec(rotate_right_spec(b)) == on_board(b),
        rotate_right_spec(rotate_left_spec(b)) == on_board(b),
        rotate_left_spec(rotate_left_spec(rotate_left_spec(rotate_left_spec(b)))) == on_board(b),
{
    let r1 = rotate_right_spec(b);
    let l1 = rotate_left_spec(b);
    let l2 = rotate_left_spec(l1);
    let l3 = rotate_left_spec(l2);
    let l4 = rotate_left_spec(l3);
    lemma_geometry_bits(b);
    lemma_turn_bits(b);
    lemma_turn_bits(r1);
    lemma_turn_bits(l1);
    lemma_turn_bits(l2);
    lemma_turn_bits(l3);
    assert forall|i: int| #[trigger] rotate_left_spec(r1).has(i) == on_board(b).has(i) by {
        if is_valid_field(i) {
            lemma_turn_sources(i);
        }
    }
    assert forall|i: int| #[trigger] rotate_right_spec(l1).has(i) == on_board(b).has(i) by {
        if is_valid_field(i) {
            lemma_turn_sources(i);
        }
    }
    assert forall|i: int| #[trigger] l4.has(i) == on_board(b).has(i) by {
        if is_valid_field(i) {
            lemma_turn_sources(i);
            lemma_turn_sources(left_source(i));
            lemma_turn_sources(left_source(left_source(i)));
            lemma_turn_sources(left_source(left_source(left_source(i))));
        }
    }
    lemma_has_ext(rotate_left_spec(r1), on_board(b));
    lemma_has_ext(rotate_right_spec(l1), on_board(b));
    lemma_has_ext(l4, on_board(b));
}

proof fn lemma_coords(x: int, y: int)
    requires
        0 <= x < 20,
        0 <= y < 20,
    ensures
        is_valid_field(x + 21 * y),
        (x + 21 * y) % 21 == x,
        (x + 21 * y) / 21 == y,
{
    assert((x + 21 * y) % 21 == x && (x + 21 * y) / 21 == y) by (nonlinear_arith)
        requires 0 <= x < 20, 0 <= y < 20;
}

/// The mirrors and turns read only the 20x20 board, and give boards on it.
pub proof fn lemma_maps_on_board(x: Bitboard)
    ensures
        flip_spec(on_board(x)) == flip_spec(x),
        mirror_spec(on_board(x)) == mirror_spec(x),
        diagonal_spec(on_board(x)) == diagonal_spec(x),
        rotate_left_spec(on_board(x)) == rotate_left_spec(x),
        on_board(on_board(x)) == on_board(x),
{
    lemma_field_maps();
    lemma_geometry_bits(x);
    lemma_geometry_bits(on_board(x));
    assert forall|i: int| #[trigger] flip_spec(on_board(x)).has(i) == flip_spec(x).has(i) by {
    }
    assert forall|i: int| #[trigger] mirror_spec(on_board(x)).has(i) == mirror_spec(x).has(i) by {
    }
    assert forall|i: int| #[trigger] diagonal_spec(on_board(x)).has(i) == diagonal_spec(x).has(i) by {
    }
    assert forall|i: int| #[trigger] on_board(on_board(x)).has(i) == on_board(x).has(i) by {
    }
    lemma_has_ext(flip_spec(on_board(x)), flip_spec(x));
    lemma_has_ext(mirror_spec(on_board(x)), mirror_spec(x));
    lemma_has_ext(diagonal_spec(on_board(x)), diagonal_spec(x));
    lemma_has_ext(on_board(on_board(x)), on_board(x));
}

proof fn lemma_row_range(i: int, k: int)
    requires
        0 <= k < 20,
    ensures
        (21 * k <= i < 21 * k + 20) == (is_valid_field(i) && i / 21 == k),
        (21 * k <= i < 21 * k + 20) ==> i - 21 * k == i % 21,
{
    if 0 <= i {
        assert((21 * k <= i < 21 * k + 20) == (i / 21 == k && i % 21 < 20) && ((21 * k <= i < 21 * k
            + 20) ==> i - 21 * k == i % 21)) by (nonlinear_arith)
            requires 0 <= k < 20, 0 <= i;
        if i / 21 == k && i % 21 < 20 {
            assert(i < 420);
        }
    }
}

proof fn lemma_column_range(i: int, col: int)
    requires
        0 <= col < 20,
    ensures
        (19 - col <= i && i - (19 - col) < 420 && (i - (19 - col)) % 21 == 0) == (is_valid_field(i)
            && i % 21 == 19 - col),
        (is_valid_field(i) && i % 21 == 19 - col) ==> i - (19 - col) + col == mirror_source(i),
{
    if 19 - col <= i {
        let j = i - (19 - col);
        assert((j % 21 == 0) == (i % 21 == 19 - col) && (j % 21 == 0 ==> j == 21 * (i / 21)))
            by (nonlinear_arith)
            requires j == i - (19 - col), 0 <= j, 0 <= col < 20;
    } else if 0 <= i {
        assert(i % 21 != 19 - col) by (nonlinear_arith)
            requires 0 <= i < 19 - col, 0 <= col < 20;
    }
}

impl Bitboard {
    /// The board upside down: row `y` of the 20x20 board becomes row `19 - y`; fields outside
    /// the 20x20 board are dropped.
    pub fn flip(&self) -> (r: Bitboard)
        ensures
            r == flip_spec(*self),
    {
        let mut board = Bitboard::empty();
        let rm = row_mask();
        proof {
            lemma_board_constants();
            lemma_field_maps();
        }
        let mut row: usize = 0;
        while row < 20
            invariant
                row <= 20,
                forall|i: int| #[trigger] rm.has(i) == (0 <= i < 20),
                forall|i: int|
                    #[trigger] board.has(i) == (is_valid_field(i) && 19 - i / 21 < row && self.has(
                        flip_source(i),
                    )),
            decreases 20 - row,
        {
            let part = self.r_shift_save(21 * row).and(rm).l_shift_save((19 - row) * 21);
            let prev = board;
            board = board.or(part);
            proof {
                assert forall|i: int| #[trigger] board.has(i) == (is_valid_field(i) && 19 - i / 21 < row
                    + 1 && self.has(flip_source(i))) by {
                    lemma_row_range(i, 19 - row);
                    if is_valid_field(i) {
                        lemma_field_parts(i);
                    }
                }
            }
            row = row + 1;
        }
        proof {
            lemma_is_board_of(board, |i: int| is_valid_field(i) && self.has(flip_source(i)));
        }
        board
    }

    /// The board left to right: column `x` of the 20x20 board becomes column `19 - x`; fields
    /// outside the 20x20 board are dropped.
    pub fn mirror(&self) -> (r: Bitboard)
        ensures
            r == mirror_spec(*self),
    {
        let mut board = Bitboard::empty();
        let cm = column_mask();
        proof {
            lemma_board_constants();
            lemma_field_maps();
        }
        let mut col: usize = 0;
        while col < 20
            invariant
                col <= 20,
                forall|i: int| #[trigger] cm.has(i) == (0 <= i < 420 && i % 21 == 0),
                forall|i: int|
                    #[trigger] board.has(i) == (is_valid_field(i) && 19 - i % 21 < col && self.has(
                        mirror_source(i),
                    )),
            decreases 20 - col,
        {
            let part = self.r_shift_save(col).and(cm).l_shift_save(19 - col);
            board = board.or(part);
            proof {
                assert forall|i: int| #[trigger] board.has(i) == (is_valid_field(i) && 19 - i % 21 < col
                    + 1 && self.has(mirror_source(i))) by {
                    lemma_column_range(i, col as int);
                }
            }
            col = col + 1;
        }
        proof {
            lemma_is_board_of(board, |i: int| is_valid_field(i) && self.has(mirror_source(i)));
        }
        board
    }

    /// The board mirrored at the diagonal through the top left corner: column and row of each
    /// field of the 20x20 board are swapped; fields outside it are dropped.
    pub fn mirror_diagonal(&self) -> (r: Bitboard)
        ensures
            r == diagonal_spec(*self),
    {
        let mut board = Bitboard::empty();
        proof {
            lemma_u128_single(0);
        }
        let mut x: u16 = 0;
        while x < 20
            invariant
                x <= 20,
                forall|i: int|
                    #[trigger] board.has(i) == (is_valid_field(i) && i / 21 < x && self.has(
                        diagonal_source(i),
                    )),
            decreases 20 - x,
        {
            let mut y: u16 = 0;
            while y < 20
                invariant
                    x < 20,
                    y <= 20,
                    forall|i: int|
                        #[trigger] board.has(i) == (is_valid_field(i) && (i / 21 < x || (i / 21 == x
                            && i % 21 < y)) && self.has(diagonal_source(i))),
                decreases 20 - y,
            {
                proof {
                    lemma_coords(y as int, x as int);
                    lemma_coords(x as int, y as int);
                }
                if self.check_bit(x + y * 21) {
                    board.flip_bit(y + x * 21);
                }
                proof {
                    assert forall|i: int| #[trigger] board.has(i) == (is_valid_field(i) && (i / 21 < x
                        || (i / 21 == x && i % 21 < y + 1)) && self.has(diagonal_source(i))) by {
                        if i == y + x * 21 {
                            assert(diagonal_source(i) == x + y * 21);
                        }
                    }
                }
                y = y + 1;
            }
            x = x + 1;
        }
        proof {
            lemma_is_board_of(board, |i: int| is_valid_field(i) && self.has(diagonal_source(i)));
        }
        board
    }

    /// The board turned a quarter anticlockwise.
    pub fn rotate_left(&self) -> (r: Bitboard)
        ensures
            r == rotate_left_spec(*self),
    {
        self.mirror_diagonal().flip()
    }

    /// The board turned a quarter clockwise.
    pub fn rotate_right(&self) -> (r: Bitboard)
        ensures
            r == rotate_right_spec(*self),
    {
        self.mirror_diagonal().mirror()
    }
}

} // verus!

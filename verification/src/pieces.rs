use vstd::prelude::*;
use crate::action::{Action, SKIP_CODE, set_code};
use crate::bitboard::{Bitboard, is_valid_field, lemma_has_ext};

verus! {

/// The smallest column among the set bits `0..n` of `b`, or 21 when there is none.
pub open spec fn min_col(b: Bitboard, n: nat) -> int
    decreases n,
{
    if n == 0 {
        21
    } else {
        let m = min_col(b, (n - 1) as nat);
        let i = n - 1;
        if b.has(i) && i % 21 < m {
            i % 21
        } else {
            m
        }
    }
}

/// The smallest row among the set bits `0..n` of `b`, or 21 when none is smaller.
pub open spec fn min_row(b: Bitboard, n: nat) -> int
    decreases n,
{
    if n == 0 {
        21
    } else {
        let m = min_row(b, (n - 1) as nat);
        let i = n - 1;
        if b.has(i) && i / 21 < m {
            i / 21
        } else {
            m
        }
    }
}

/// The field at the top left corner of the set bits of `b`: its leftmost column in its
/// topmost row.
pub open spec fn top_left(b: Bitboard) -> int {
    min_col(b, 512) + 21 * min_row(b, 512)
}

/// The first shape from `s` on whose board at `destination` is `b`, or 91 when there is none.
pub open spec fn first_shape(b: Bitboard, destination: u16, s: nat) -> nat
    decreases 91 - s,
{
    if s >= 91 {
        91
    } else if Bitboard::with_piece_spec(destination, s as usize) == b {
        s
    } else {
        first_shape(b, destination, s + 1)
    }
}

/// The action that places the piece that makes up `b`: the first shape whose board at the top
/// left corner of `b` is `b`; a skip when `b` is empty or no shape fits it.
pub open spec fn action_of_board(b: Bitboard) -> Action {
    if b == Bitboard(0, 0, 0, 0) {
        Action(SKIP_CODE)
    } else {
        let d = top_left(b) as u16;
        let s = first_shape(b, d, 0);
        if s < 91 {
            Action(set_code(d, s as u16))
        } else {
            Action(SKIP_CODE)
        }
    }
}

proof fn lemma_min_bounds(b: Bitboard, n: nat)
    ensures
        0 <= min_col(b, n) <= 21,
        0 <= min_row(b, n) <= 21,
    decreases n,
{
    if n > 0 {
        lemma_min_bounds(b, (n - 1) as nat);
    }
}

/// Bits that are not set do not move the corner.
proof fn lemma_min_stable(b: Bitboard, k: nat, n: nat)
    requires
        k <= n,
        forall|i: int| k <= i < n ==> !#[trigger] b.has(i),
    ensures
        min_col(b, n) == min_col(b, k),
        min_row(b, n) == min_row(b, k),
    decreases n - k,
{
    if n > k {
        lemma_min_stable(b, k, (n - 1) as nat);
        assert(!b.has(n - 1));
    }
}

proof fn lemma_first_shape_step(b: Bitboard, d: u16, s: nat)
    requires
        s < 91,
    ensures
        Bitboard::with_piece_spec(d, s as usize) == b ==> first_shape(b, d, s) == s,
        Bitboard::with_piece_spec(d, s as usize) != b ==> first_shape(b, d, s) == first_shape(
            b,
            d,
            s + 1,
        ),
{
}

/// The fields of `p` together with the fields of `b` next to a field of `p`.
pub open spec fn grown(p: Bitboard, b: Bitboard, q: Bitboard) -> bool {
    forall|i: int|
        #[trigger] q.has(i) == (p.has(i) || (b.has(i) && is_valid_field(i) && (p.has(i - 1)
            || p.has(i + 1) || p.has(i - 21) || p.has(i + 21))))
}

/// `p` grown by one step inside `b` (see `grown`).
pub open spec fn grow(p: Bitboard, b: Bitboard) -> Bitboard {
    choose|q: Bitboard| grown(p, b, q)
}

/// `p` grown `n` steps inside `b`.
pub open spec fn grow_times(p: Bitboard, b: Bitboard, n: nat) -> Bitboard
    decreases n,
{
    if n == 0 {
        p
    } else {
        grow(grow_times(p, b, (n - 1) as nat), b)
    }
}

/// Only bit `t` of `q` is set.
pub open spec fn is_single(q: Bitboard, t: int) -> bool {
    forall|i: int| #[trigger] q.has(i) == (i == t)
}

/// The board with only bit `t` set.
pub open spec fn single(t: int) -> Bitboard {
    choose|q: Bitboard| is_single(q, t)
}

/// The lowest set bit of `b`.
pub open spec fn first_field(b: Bitboard) -> int {
    choose|t: int| b.has(t) && forall|j: int| 0 <= j < t ==> !#[trigger] b.has(j)
}

/// The pieces of `b`, lowest first, for at most `n` pieces: the piece holding the lowest set
/// bit is that bit grown five steps inside `b`; it is read with `action_of_board` and taken
/// out of `b` before the next one is found.
pub open spec fn pieces_from(b: Bitboard, n: nat) -> Seq<Action>
    decreases n,
{
    if n == 0 || b == Bitboard(0, 0, 0, 0) {
        Seq::<Action>::empty()
    } else {
        let p = grow_times(single(first_field(b)), b, 5);
        seq![action_of_board(p)] + pieces_from(b.xor_spec(p), (n - 1) as nat)
    }
}

pub(crate) proof fn lemma_grow(p: Bitboard, b: Bitboard, q: Bitboard)
    requires
        grown(p, b, q),
    ensures
        grow(p, b) == q,
{
    let g = grow(p, b);
    assert(grown(p, b, g));
    assert forall|i: int| #[trigger] g.has(i) == q.has(i) by {
    }
    lemma_has_ext(g, q);
}

pub(crate) proof fn lemma_single(t: int, q: Bitboard)
    requires
        forall|i: int| #[trigger] q.has(i) == (i == t),
    ensures
        single(t) == q,
{
    assert(is_single(q, t));
    let g = single(t);
    assert(is_single(g, t));
    assert forall|i: int| #[trigger] g.has(i) == q.has(i) by {
    }
    lemma_has_ext(g, q);
}

pub(crate) proof fn lemma_first_field(b: Bitboard, t: int)
    requires
        b.has(t),
        forall|j: int| 0 <= j < t ==> !#[trigger] b.has(j),
    ensures
        first_field(b) == t,
{
    let f = first_field(b);
    assert(b.has(f) && forall|j: int| 0 <= j < f ==> !#[trigger] b.has(j));
    assert(0 <= t && 0 <= f);
    if f < t {
        assert(!b.has(f));
    } else if t < f {
        assert(!b.has(t));
    }
}

/// Shapes of recognised pieces are below 91.
pub proof fn lemma_action_of_board_shape(b: Bitboard)
    ensures
        !action_of_board(b).is_skip_spec() ==> action_of_board(b).shape_spec() < 91,
{
    let a = action_of_board(b);
    if !a.is_skip_spec() {
        let d = top_left(b) as u16;
        let s = first_shape(b, d, 0);
        assert(s < 91);
        let sh = s as u16;
        assert(((((d << 7u16) | sh) as u16) % 128) == sh) by (bit_vector)
            requires sh < 91u16;
    }
}

/// Every recognised piece of a board has one of the 91 shapes.
pub proof fn lemma_pieces_shapes(b: Bitboard, n: nat)
    ensures
        forall|i: int|
            0 <= i < pieces_from(b, n).len() && !(#[trigger] pieces_from(b, n)[i]).is_skip_spec()
                ==> pieces_from(b, n)[i].shape_spec() < 91,
    decreases n,
{
    if n > 0 && b != Bitboard(0, 0, 0, 0) {
        let p = grow_times(single(first_field(b)), b, 5);
        lemma_action_of_board_shape(p);
        lemma_pieces_shapes(b.xor_spec(p), (n - 1) as nat);
        let s = pieces_from(b, n);
        assert forall|i: int| 0 <= i < s.len() && !(#[trigger] s[i]).is_skip_spec() implies s[i].shape_spec() < 91 by {
            if i > 0 {
                assert(s[i] == pieces_from(b.xor_spec(p), (n - 1) as nat)[i - 1]);
            }
        }
    }
}

impl Action {
    /// The action that places the single piece that makes up `board` (see `action_of_board`);
    /// a skip when the board is empty or holds no single piece.
    pub fn from_bitboard(board: Bitboard) -> (r: Action)
        ensures
            r == action_of_board(board),
    {
        if board.is_empty() {
            return Action::skip();
        }
        let mut board_copy = board;
        let mut left: u16 = 21;
        let mut top: u16 = 21;
        let ghost mut k: int = 0;
        while board_copy.not_empty()
            invariant
                0 <= k <= 512,
                forall|i: int| #[trigger] board_copy.has(i) == (board.has(i) && i >= k),
                left == min_col(board, k as nat),
                top == min_row(board, k as nat),
            decreases 512 - k,
        {
            let field_index = board_copy.trailing_zeros();
            proof {
                assert(board_copy.has(field_index as int));
                assert forall|i: int| k <= i < field_index implies !#[trigger] board.has(i) by {
                    assert(!board_copy.has(i));
                }
                lemma_min_stable(board, k as nat, field_index as nat);
                lemma_min_bounds(board, k as nat);
            }
            let ghost before = board_copy;
            board_copy.flip_bit(field_index);
            let x = field_index % 21;
            let y = field_index / 21;
            if x < left {
                left = x;
            }
            if y < top {
                top = y;
            }
            proof {
                k = field_index + 1;
                assert forall|i: int| #[trigger] board_copy.has(i) == (board.has(i) && i >= k) by {
                    assert(board_copy.has(i) == (before.has(i) != (i == field_index)));
                    if k - 1 > i && i >= 0 {
                        if before.has(i) {
                            assert(i >= field_index);
                        }
                    }
                }
            }
        }
        proof {
            assert forall|i: int| k <= i < 512 implies !#[trigger] board.has(i) by {
                assert(!board_copy.has(i));
            }
            lemma_min_stable(board, k as nat, 512);
            lemma_min_bounds(board, 512);
        }
        let destination = left + top * 21;
        let mut shape: usize = 0;
        while shape < 91
            invariant
                shape <= 91,
                board != Bitboard(0, 0, 0, 0),
                destination == top_left(board),
                first_shape(board, destination, 0) == first_shape(board, destination, shape as nat),
            decreases 91 - shape,
        {
            proof {
                lemma_first_shape_step(board, destination, shape as nat);
            }
            if Bitboard::with_piece(destination, shape) == board {
                proof {
                    assert(board != Bitboard(0, 0, 0, 0));
                    assert(first_shape(board, destination, 0) == shape);
                    assert(top_left(board) as u16 == destination);
                }
                return Action::set(destination, shape as u16);
            }
            shape = shape + 1;
        }
        Action::skip()
    }
}

impl Bitboard {
    /// The pieces on the board as actions, lowest first (see `pieces_from`).
    pub fn get_pieces(&self) -> (r: Vec<Action>)
        ensures
            r@ == pieces_from(*self, 512),
    {
        let mut board = *self;
        let mut actions: Vec<Action> = Vec::new();
        let ghost mut g: int = 0;
        while board.not_empty()
            invariant
                0 <= g <= 512,
                forall|j: int| 0 <= j < g ==> !#[trigger] board.has(j),
                actions@ + pieces_from(board, (512 - g) as nat) == pieces_from(*self, 512),
            decreases 512 - g,
        {
            let t = board.trailing_zeros();
            let mut piece_board = Bitboard::bit(t);
            proof {
                assert(board.has(t as int));
                if t < g {
                    assert(!board.has(t as int));
                }
                lemma_single(t as int, piece_board);
                lemma_first_field(board, t as int);
            }
            let mut step: usize = 0;
            while step < 5
                invariant
                    step <= 5,
                    t < 512,
                    board.has(t as int),
                    piece_board == grow_times(single(t as int), board, step as nat),
                    piece_board.has(t as int),
                    forall|i: int| #[trigger] piece_board.has(i) ==> board.has(i),
                decreases 5 - step,
            {
                let prev = piece_board;
                piece_board = prev.or(prev.neighbours().and(board));
                proof {
                    assert(grown(prev, board, piece_board));
                    lemma_grow(prev, board, piece_board);
                }
                step = step + 1;
            }
            let ghost before = board;
            board = board.xor(piece_board);
            actions.push(Action::from_bitboard(piece_board));
            proof {
                let p = grow_times(single(first_field(before)), before, 5);
                assert(p == piece_board);
                let rest = pieces_from(before.xor_spec(p), (512 - g - 1) as nat);
                assert(pieces_from(before, (512 - g) as nat) == seq![action_of_board(p)] + rest);
                assert forall|j: int| 0 <= j < g + 1 implies !#[trigger] board.has(j) by {
                    assert(board.has(j) == (before.has(j) != piece_board.has(j)));
                    if j < t {
                        assert(!before.has(j));
                    }
                }
                g = g + 1;
                assert(actions@ + pieces_from(board, (512 - g) as nat) =~= pieces_from(*self, 512));
            }
        }
        proof {
            assert(pieces_from(board, (512 - g) as nat) =~= Seq::<Action>::empty());
            assert(actions@ + Seq::<Action>::empty() =~= actions@);
        }
        actions
    }
}

} // verus!

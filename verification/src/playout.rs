use vstd::prelude::*;
use rand::rngs::SmallRng;
use crate::action::Action;
use crate::bitboard::{Bitboard, valid_fields, start_fields};
use crate::gamestate::{GameState, legal_field, placement_field, skip_bit, legal_move};
use crate::piece_type::{PieceType, shape_type_spec};
use crate::rng::{next_u32, next_u64};
use crate::shapes::{shape_destination, shape_destinations};
use crate::integrity::game_result_spec;
use crate::sanity::next_state;
use crate::evaluation::game_over;
use crate::counting::{count_of, lemma_count_disjoint, lemma_count_single, lemma_count_sub, lemma_count_board};

verus! {

broadcast use vstd::array::group_array_axioms;

/// How often a random move is tried before giving up.
pub const MOVEGEN_RETRIES: usize = 40;

/// The shape with number `i` among the 63 shapes of pentominoes.
pub open spec fn pentomino_shape_spec(i: int) -> int {
    if i == 0 {
        7
    } else if i == 1 {
        8
    } else if i == 2 {
        10
    } else if i < 15 {
        23 + (i - 3)
    } else {
        43 + (i - 15)
    }
}

/// The shape with number `i` (`i < 63`) among the 63 shapes of pentominoes.
pub fn pentomino_shape(i: usize) -> (r: usize)
    requires
        i < 63,
    ensures
        r == pentomino_shape_spec(i as int),
        r < 91,
{
    if i == 0 {
        7
    } else if i == 1 {
        8
    } else if i == 2 {
        10
    } else if i < 15 {
        23 + (i - 3)
    } else {
        43 + (i - 15)
    }
}

impl Bitboard {
    /// A set bit of the board chosen at random: the lowest one when fewer than two are set,
    /// otherwise the lowest after clearing a random number (below the count) of the lowest.
    /// Returns 512 for the empty board.
    pub fn random_field(&mut self, rng: &mut SmallRng) -> (r: u16)
        ensures
            r <= 512,
            (r == 512) == (*old(self) == Bitboard(0, 0, 0, 0)),
            r < 512 ==> old(self).has(r as int),
            forall|i: int| #[trigger] final(self).has(i) == (old(self).has(i) && i >= r),
    {
        let n = self.count_ones() as usize;
        if n < 2 {
            let r = self.trailing_zeros();
            proof {
                assert forall|i: int| #[trigger] self.has(i) == (self.has(i) && i >= r) by {
                    if 0 <= i < r {
                        assert(!self.has(i));
                    }
                }
            }
            return r;
        }
        let steps = next_u32(rng) as usize % n;
        let ghost start = *self;
        let mut k: usize = 0;
        let ghost mut low: int = 0;
        while k < steps
            invariant
                k <= steps,
                steps < n,
                n == start.count_ones_spec(),
                0 <= low <= 512,
                forall|i: int| #[trigger] self.has(i) == (start.has(i) && i >= low),
                self.count_ones_spec() == n - k,
            decreases steps - k,
        {
            proof {
                crate::counting::lemma_count_positive(*self);
            }
            let t = self.trailing_zeros();
            proof {
                assert(*self != Bitboard(0, 0, 0, 0)) by {
                    let i = choose|i: int| #[trigger] self.has(i);
                    crate::bitboard::lemma_empty_iff(*self);
                }
            }
            let ghost before = *self;
            self.flip_bit(t);
            proof {
                crate::counting::lemma_count_remove(before, *self, t as int);
                assert forall|i: int| #[trigger] self.has(i) == (start.has(i) && i >= t + 1) by {
                    if low <= i < t {
                        assert(!before.has(i));
                    }
                }
                low = t + 1;
            }
            k = k + 1;
        }
        proof {
            crate::counting::lemma_count_positive(*self);
            let i = choose|i: int| #[trigger] self.has(i);
            crate::bitboard::lemma_empty_iff(*self);
            crate::bitboard::lemma_empty_iff(start);
            assert(start.has(i));
        }
        let r = self.trailing_zeros();
        proof {
            assert forall|i: int| #[trigger] self.has(i) == (start.has(i) && i >= r) by {
                if low <= i < r {
                    assert(!self.has(i));
                }
            }
        }
        r
    }
}

/// The number of fields below `r` where `f` holds.
pub open spec fn rank_below(f: spec_fn(int) -> bool, r: int) -> nat {
    count_of(|i: int| f(i) && i < r)
}

/// The field where `f` holds with exactly `k` such fields below it.
pub open spec fn field_of_rank(f: spec_fn(int) -> bool, k: int) -> int {
    choose|d: int| 0 <= d < 512 && f(d) && rank_below(f, d) == k
}

/// Two fields of the same rank are the same field.
proof fn lemma_rank_unique(f: spec_fn(int) -> bool, d1: int, d2: int)
    requires
        0 <= d1 < 512,
        f(d1),
        f(d2),
        d1 < d2,
    ensures
        rank_below(f, d1) < rank_below(f, d2),
{
    let g = |i: int| f(i) && i < d1;
    let one = |i: int| i == d1;
    lemma_count_disjoint(g, one);
    lemma_count_single(d1);
    lemma_count_sub(|i: int| g(i) || one(i), |i: int| f(i) && i < d2);
}

/// Adding the set bit `t` above the bits counted so far adds one to the count.
proof fn lemma_rank_step(b: Bitboard, low: int, t: int)
    requires
        0 <= low <= t < 512,
        b.has(t),
        forall|i: int| low <= i < t ==> !#[trigger] b.has(i),
    ensures
        rank_below(|i: int| b.has(i), t + 1) == rank_below(|i: int| b.has(i), low) + 1,
        rank_below(|i: int| b.has(i), t) == rank_below(|i: int| b.has(i), low),
{
    let g = |i: int| b.has(i) && i < low;
    let one = |i: int| i == t;
    lemma_count_disjoint(g, one);
    lemma_count_single(t);
    assert((|i: int| (|i: int| b.has(i))(i) && i < t + 1) =~= (|i: int| g(i) || one(i)));
    assert((|i: int| (|i: int| b.has(i))(i) && i < t) =~= g);
    assert((|i: int| (|i: int| b.has(i))(i) && i < low) =~= g);
}

impl Bitboard {
    /// The set bit of the board with exactly `k` set bits below it.
    pub fn nth_field(&self, k: usize) -> (r: u16)
        requires
            k < self.count_ones_spec(),
        ensures
            r < 512,
            self.has(r as int),
            rank_below(|i: int| self.has(i), r as int) == k,
    {
        let mut b = *self;
        let mut j: usize = 0;
        let ghost mut low: int = 0;
        proof {
            crate::shape_laws::lemma_count_nothing(|i: int| (|i: int| self.has(i))(i) && i < 0);
        }
        while j < k
            invariant
                j <= k,
                k < self.count_ones_spec(),
                0 <= low <= 512,
                forall|i: int| #[trigger] b.has(i) == (self.has(i) && i >= low),
                b.count_ones_spec() == self.count_ones_spec() - j,
                rank_below(|i: int| self.has(i), low) == j,
            decreases k - j,
        {
            proof {
                crate::counting::lemma_count_positive(b);
                let i = choose|i: int| #[trigger] b.has(i);
                crate::bitboard::lemma_empty_iff(b);
            }
            let t = b.trailing_zeros();
            let ghost before = b;
            b.flip_bit(t);
            proof {
                assert forall|i: int| low <= i < t implies !#[trigger] self.has(i) by {
                    assert(!before.has(i));
                }
                crate::counting::lemma_count_remove(before, b, t as int);
                lemma_rank_step(*self, low, t as int);
                assert forall|i: int| #[trigger] b.has(i) == (self.has(i) && i >= t + 1) by {
                    if low <= i < t {
                        assert(!before.has(i));
                    }
                }
                low = t + 1;
            }
            j = j + 1;
        }
        proof {
            crate::counting::lemma_count_positive(b);
            let i = choose|i: int| #[trigger] b.has(i);
            crate::bitboard::lemma_empty_iff(b);
        }
        let r = b.trailing_zeros();
        proof {
            assert forall|i: int| low <= i < r implies !#[trigger] self.has(i) by {
                assert(!b.has(i));
            }
            lemma_rank_step(*self, low, r as int);
        }
        r
    }
}

/// The pentomino shapes have five fields.
proof fn lemma_pentomino_size(i: int)
    requires
        0 <= i < 63,
    ensures
        shape_type_spec(pentomino_shape_spec(i) as usize).size_spec() == 5,
{
    let sh = pentomino_shape_spec(i);
    if sh < 31 {
    } else if sh < 43 {
    } else if sh < 60 {
    } else if sh < 75 {
    } else {
    }
}

/// The shape that the random number `draw` picks: in the first round one of the start piece
/// type's shapes, else one of the 63 pentomino shapes when `pentomino_only`, else one of all 91.
pub open spec fn drawn_shape(s: GameState, draw: u64, pentomino_only: bool) -> int {
    if s.ply < 4 {
        s.start_piece_type.shapes_spec().0 + (draw as int) % (s.start_piece_type.shapes_spec().1 as int)
    } else if pentomino_only {
        pentomino_shape_spec((draw as int) % 63)
    } else {
        (draw as int) % 91
    }
}

/// The shape that the random number `draw` picks (see `drawn_shape`).
pub fn draw_shape(state: &GameState, draw: u64, pentomino_only: bool) -> (r: usize)
    ensures
        r == drawn_shape(*state, draw, pentomino_only),
        r < 91,
{
    if state.ply < 4 {
        let (first, count) = state.start_piece_type.shapes();
        first + (draw % (count as u64)) as usize
    } else if pentomino_only {
        pentomino_shape((draw % 63) as usize)
    } else {
        (draw % 91) as usize
    }
}

/// The destinations of shape `sh` for the color to move of `s`.
pub open spec fn destinations_of(s: GameState, sh: int) -> spec_fn(int) -> bool {
    |d: int| shape_destination(
        sh as usize,
        |i: int| legal_field(s, (s.ply % 4) as int, i),
        |i: int| placement_field(s, (s.ply % 4) as int, i),
        d,
    )
}

/// What one try of a random move gives for the random numbers `shape_draw` and `field_draw`:
/// nothing when the color to move has skipped, no longer has the piece type of the drawn shape
/// or the shape has no destination; otherwise the drawn shape at the destination whose rank
/// among the destinations is `field_draw` modulo their number (the lowest when there is one).
pub open spec fn try_spec(s: GameState, shape_draw: u64, field_draw: u32, pentomino_only: bool) -> Option<Action> {
    let c = (s.ply % 4) as int;
    let sh = drawn_shape(s, shape_draw, pentomino_only);
    let f = destinations_of(s, sh);
    let n = count_of(f);
    if skip_bit(s.skipped, c) || !s.pieces_left[shape_type_spec(sh as usize).index_spec()][c] || n == 0 {
        None
    } else {
        let k = if n < 2 { 0 } else { (field_draw as int) % (n as int) };
        Some(Action((field_of_rank(f, k) * 128 + sh) as u16))
    }
}

/// The fields that a new piece of the color to move may cover, and its placement fields.
fn move_fields(state: &GameState) -> (r: (Bitboard, Bitboard))
    ensures
        (|i: int| r.0.has(i)) == (|i: int| legal_field(*state, (state.ply % 4) as int, i)),
        (|i: int| r.1.has(i)) == (|i: int| placement_field(*state, (state.ply % 4) as int, i)),
{
    let color = state.get_current_color();
    let own_fields = state.board[color];
    let other_fields = state.get_occupied_fields().and(own_fields.not());
    let legal_fields = own_fields.or(other_fields).or(own_fields.neighbours()).not().and(
        valid_fields(),
    );
    let p = if state.ply > 3 {
        own_fields.diagonal_neighbours().and(legal_fields)
    } else {
        start_fields().and(other_fields.not())
    };
    let ghost c = color as int;
    proof {
        crate::bitboard::lemma_board_constants();
        assert(forall|i: int| #[trigger] legal_fields.has(i) == legal_field(*state, c, i));
        assert(forall|i: int| #[trigger] p.has(i) == placement_field(*state, c, i));
        assert((|i: int| legal_fields.has(i)) =~= (|i: int| legal_field(*state, c, i)));
        assert((|i: int| p.has(i)) =~= (|i: int| placement_field(*state, c, i)));
    }
    (legal_fields, p)
}

/// One try of a random move for the random numbers `shape_draw` and `field_draw` (see
/// `try_spec`).
pub fn try_action(state: &GameState, shape_draw: u64, field_draw: u32, pentomino_only: bool) -> (r: Option<Action>)
    ensures
        r == try_spec(*state, shape_draw, field_draw, pentomino_only),
        r matches Some(a) ==> legal_move(*state, a.destination_spec(), a.shape_spec())
            && a.shape_spec() == drawn_shape(*state, shape_draw, pentomino_only),
{
    let color = state.get_current_color();
    let ghost c = color as int;
    let ghost sh = drawn_shape(*state, shape_draw, pentomino_only);
    let ghost f = destinations_of(*state, sh);
    if state.has_color_skipped(color) {
        return None;
    }
    let (legal_fields, p) = move_fields(state);
    let shape = draw_shape(state, shape_draw, pentomino_only);
    if !state.pieces_left[PieceType::from_shape(shape).index()][color] {
        return None;
    }
    let destinations = shape_destinations(shape, legal_fields, p);
    proof {
        assert((|d: int| destinations.has(d)) =~= f);
        lemma_count_board(destinations);
    }
    let n = destinations.count_ones();
    if n == 0 {
        return None;
    }
    let k: usize = if n < 2 { 0 } else { (field_draw % n) as usize };
    let d = destinations.nth_field(k);
    proof {
        let kk = k as int;
        assert(rank_below(f, d as int) == kk) by {
            assert((|i: int| destinations.has(i)) =~= f);
        }
        let e = field_of_rank(f, kk);
        assert(0 <= d < 512 && f(d as int) && rank_below(f, d as int) == kk);
        assert(0 <= e < 512 && f(e) && rank_below(f, e) == kk);
        if e < d {
            lemma_rank_unique(f, e, d as int);
        } else if d < e {
            lemma_rank_unique(f, d as int, e);
        }
        if state.ply < 4 {
            assert(shape_type_spec(shape) == state.start_piece_type);
        }
    }
    Some(Action::set(d, shape as u16))
}

/// No shape can be placed without a placement field.
proof fn lemma_no_placement(s: GameState, d: int, sh: int)
    requires
        forall|i: int| !#[trigger] placement_field(s, (s.ply % 4) as int, i),
    ensures
        !legal_move(s, d, sh),
{
    if legal_move(s, d, sh) && sh != 0 {
        let pf = |i: int| placement_field(s, (s.ply % 4) as int, i);
        crate::shape_laws::lemma_touch_cell(sh as usize, pf, d);
        crate::shape_bits::lemma_piece_fields(sh as usize, |i: int| !pf(i), d);
    }
}

/// A random legal move of the color to move, `None` of it only when it has none: a skip when it
/// has skipped before or has no placement field; otherwise up to `MOVEGEN_RETRIES` times random
/// numbers are drawn for a shape (see `drawn_shape`) and, when the shape's piece type is left and
/// it has at least two destinations, for one of them, and the first try that gives an action
/// (see `try_action`) is made; when none does, the first shape with a destination, in the order
/// of the pentomino shapes first when `pentomino_only` and then of all shapes, is placed at its
/// lowest destination, and a skip is made when no shape has one.
#[verifier::rlimit(40)]
pub fn random_action(state: &GameState, rng: &mut SmallRng, pentomino_only: bool) -> (r: Action)
    ensures
        r.is_skip_spec() || legal_move(*state, r.destination_spec(), r.shape_spec()),
        r.is_skip_spec() == (skip_bit(state.skipped, (state.ply % 4) as int) || !(exists|d: int, sh: int|
            legal_move(*state, d, sh))),
        pentomino_only && state.ply >= 4 && !r.is_skip_spec() && shape_type_spec(r.shape_spec() as usize).size_spec() < 5
            ==> forall|d: int, i: int| 0 <= i < 63 ==> !#[trigger] legal_move(*state, d, pentomino_shape_spec(i)),
{
    let color = state.get_current_color();
    let ghost c = color as int;
    if state.has_color_skipped(color) {
        return Action::skip();
    }
    let (legal_fields, p) = move_fields(state);
    if p.is_empty() {
        proof {
            crate::bitboard::lemma_empty_iff(p);
            assert forall|i: int| !#[trigger] placement_field(*state, c, i) by {
                assert(!p.has(i));
                assert((|i: int| p.has(i))(i) == (|i: int| placement_field(*state, (state.ply % 4) as int, i))(i));
            }
            assert forall|d: int, sh: int| !legal_move(*state, d, sh) by {
                lemma_no_placement(*state, d, sh);
            }
        }
        return Action::skip();
    }
    let mut tries: usize = 0;
    while tries < MOVEGEN_RETRIES
        invariant
            c == state.ply % 4,
            c == color,
            (|i: int| legal_fields.has(i)) == (|i: int| legal_field(*state, c, i)),
            (|i: int| p.has(i)) == (|i: int| placement_field(*state, c, i)),
            !skip_bit(state.skipped, c),
        decreases MOVEGEN_RETRIES - tries,
    {
        let shape_draw: u64 = if state.ply < 4 || pentomino_only {
            next_u64(rng)
        } else {
            next_u32(rng) as u64
        };
        let shape = draw_shape(state, shape_draw, pentomino_only);
        if state.pieces_left[PieceType::from_shape(shape).index()][color] {
            let destinations = shape_destinations(shape, legal_fields, p);
            if destinations.not_empty() {
                let n = destinations.count_ones();
                let field_draw: u32 = if n >= 2 { next_u32(rng) } else { 0 };
                match try_action(state, shape_draw, field_draw, pentomino_only) {
                    Some(a) => {
                        proof {
                            assert(!a.is_skip_spec()) by {
                                assert(65535int % 128 == 127);
                            }
                            if pentomino_only && state.ply >= 4 {
                                lemma_pentomino_size((shape_draw as int) % 63);
                            }
                        }
                        return a;
                    },
                    None => {},
                }
            }
        }
        tries = tries + 1;
    }
    if pentomino_only && state.ply >= 4 {
        let mut i: usize = 0;
        while i < 63
            invariant
                c == state.ply % 4,
                c == color,
                state.ply >= 4,
                (|i: int| legal_fields.has(i)) == (|i: int| legal_field(*state, c, i)),
                (|i: int| p.has(i)) == (|i: int| placement_field(*state, c, i)),
                !skip_bit(state.skipped, c),
                forall|d: int, j: int| 0 <= j < i ==> !#[trigger] legal_move(*state, d, pentomino_shape_spec(j)),
            decreases 63 - i,
        {
            let shape = pentomino_shape(i);
            if state.pieces_left[PieceType::from_shape(shape).index()][color] {
                let destinations = shape_destinations(shape, legal_fields, p);
                if destinations.not_empty() {
                    let d = destinations.trailing_zeros();
                    proof {
                        crate::bitboard::lemma_empty_iff(destinations);
                        assert(65535int % 128 == 127);
                        lemma_pentomino_size(i as int);
                        assert(destinations.has(d as int));
                        assert(legal_move(*state, d as int, shape as int));
                    }
                    let r = Action::set(d, shape as u16);
                    proof {
                        assert(r.destination_spec() == d && r.shape_spec() == shape);
                        assert(!r.is_skip_spec());
                    }
                    return r;
                }
                proof {
                    crate::bitboard::lemma_empty_iff(destinations);
                    assert forall|d: int| !legal_move(*state, d, shape as int) by {
                        assert(!destinations.has(d));
                    }
                }
            }
            i = i + 1;
        }
    }
    let ghost pent_none = pentomino_only && state.ply >= 4;
    let mut sh: usize = 0;
    while sh < 91
        invariant
            c == state.ply % 4,
            c == color,
            (|i: int| legal_fields.has(i)) == (|i: int| legal_field(*state, c, i)),
            (|i: int| p.has(i)) == (|i: int| placement_field(*state, c, i)),
            !skip_bit(state.skipped, c),
            forall|d: int, j: int| 0 <= j < sh ==> !#[trigger] legal_move(*state, d, j),
            pent_none == (pentomino_only && state.ply >= 4),
            pent_none ==> forall|d: int, j: int| 0 <= j < 63 ==> !#[trigger] legal_move(*state, d, pentomino_shape_spec(j)),
        decreases 91 - sh,
    {
        let t = PieceType::from_shape(sh);
        if (state.ply >= 4 || t == state.start_piece_type) && state.pieces_left[t.index()][color] {
            let destinations = shape_destinations(sh, legal_fields, p);
            if destinations.not_empty() {
                let d = destinations.trailing_zeros();
                proof {
                    crate::bitboard::lemma_empty_iff(destinations);
                    assert(65535int % 128 == 127);
                    assert(destinations.has(d as int));
                    assert(legal_move(*state, d as int, sh as int));
                }
                let r = Action::set(d, sh as u16);
                proof {
                    assert(r.destination_spec() == d && r.shape_spec() == sh);
                    assert(!r.is_skip_spec());
                }
                return r;
            }
            proof {
                crate::bitboard::lemma_empty_iff(destinations);
                assert forall|d: int| !legal_move(*state, d, sh as int) by {
                    assert(!destinations.has(d));
                }
            }
        }
        sh = sh + 1;
    }
    proof {
        assert forall|d: int, j: int| !legal_move(*state, d, j) by {
            if 0 <= j < 91 {
                assert(!legal_move(*state, d, j));
            }
        }
    }
    Action::skip()
}

/// The state that the actions of `moves` lead to from `s`, one after another.
pub open spec fn played(s: GameState, moves: Seq<(Action, usize)>) -> GameState
    decreases moves.len(),
{
    if moves.len() == 0 {
        s
    } else {
        next_state(played(s, moves.drop_last()), moves.last().0)
    }
}

/// A game played to its end with random moves (see `random_action`; pentomino shapes only in
/// the first twelve plies): the game result and the moves, each with the color that made it.
/// The state is left at the end of the game.
pub fn random_playout(state: &mut GameState, rng: &mut SmallRng) -> (r: (i16, Vec<(Action, usize)>))
    ensures
        game_over(*final(state)),
        *final(state) == played(*old(state), r.1@),
        r.0 == game_result_spec(*final(state)),
        forall|k: int|
            0 <= k < r.1@.len() ==> {
                let before = played(*old(state), r.1@.take(k));
                &&& (#[trigger] r.1@[k]).1 == before.ply % 4
                &&& r.1@[k].0.is_skip_spec() || legal_move(
                    before,
                    r.1@[k].0.destination_spec(),
                    r.1@[k].0.shape_spec(),
                )
                &&& r.1@[k].0.is_skip_spec() == (skip_bit(before.skipped, (before.ply % 4) as int) || !(exists|d: int, sh: int| legal_move(before, d, sh)))
            },
{
    let ghost start = *state;
    let mut moves: Vec<(Action, usize)> = Vec::new();
    while !state.is_game_over()
        invariant
            *state == played(start, moves@),
            forall|k: int|
                0 <= k < moves@.len() ==> {
                    let before = played(start, moves@.take(k));
                    &&& (#[trigger] moves@[k]).1 == before.ply % 4
                    &&& moves@[k].0.is_skip_spec() || legal_move(
                        before,
                        moves@[k].0.destination_spec(),
                        moves@[k].0.shape_spec(),
                    )
                    &&& moves@[k].0.is_skip_spec() == (skip_bit(before.skipped, (before.ply % 4) as int)
                        || !(exists|d: int, sh: int| legal_move(before, d, sh)))
                },
        decreases 255 - state.ply,
    {
        let color = state.get_current_color();
        let action = random_action(state, rng, state.ply < 12);
        let ghost before = *state;
        state.do_action(action);
        proof {
            crate::sanity::lemma_next_state(before, *state, action);
        }
        let ghost old_moves = moves@;
        moves.push((action, color));
        proof {
            assert(moves@.drop_last() =~= old_moves);
            assert forall|k: int| 0 <= k < moves@.len() implies {
                let b = played(start, moves@.take(k));
                &&& (#[trigger] moves@[k]).1 == b.ply % 4
                &&& moves@[k].0.is_skip_spec() || legal_move(
                    b,
                    moves@[k].0.destination_spec(),
                    moves@[k].0.shape_spec(),
                )
                &&& moves@[k].0.is_skip_spec() == (skip_bit(b.skipped, (b.ply % 4) as int)
                    || !(exists|d: int, sh: int| legal_move(b, d, sh)))
            } by {
                if k < old_moves.len() {
                    assert(moves@.take(k) =~= old_moves.take(k));
                } else {
                    assert(moves@.take(k) =~= old_moves);
                }
            }
        }
    }
    (state.game_result(), moves)
}


/// The slot of `action` made by color `color` in a table of action values: for a set action
/// `(destination + 418 * shape) * 4 + color`, for a skip `152151 + color`, the first slot
/// after those of the set actions with a destination below 418 and one of the 91 shapes.
pub open spec fn rave_index_spec(action: Action, color: int) -> int {
    if action.is_skip_spec() {
        152151 + color
    } else {
        (action.destination_spec() + 418 * action.shape_spec()) * 4 + color
    }
}

/// The slot of `action` made by color `color` in a table of action values (see
/// `rave_index_spec`).
pub fn rave_index(action: Action, color: usize) -> (r: usize)
    requires
        color < 4,
    ensures
        r == rave_index_spec(action, color as int),
{
    if action.is_set() {
        let destination = action.get_destination() as usize;
        let shape = action.get_shape() as usize;
        (destination + 418 * shape) * 4 + color
    } else {
        152151 + color
    }
}

} // verus!

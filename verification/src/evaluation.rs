use vstd::prelude::*;
use crate::bitboard::{Bitboard, is_valid_field};
use crate::counting::{count_of, lemma_count_board, lemma_count_sub, lemma_count_two};
use crate::gamestate::{GameState, occupied_spec, skip_bit};
use crate::integrity::{game_result_spec, score};
use crate::sanity::boards_sane;

verus! {

broadcast use vstd::array::group_array_axioms;

/// The score of a won game before the result is added.
pub const MATE_SCORE: i16 = 32000;

/// Field `i` of the 20x20 board is next to a field of `b`.
pub open spec fn next_to(b: Bitboard, i: int) -> bool {
    is_valid_field(i) && (b.has(i - 1) || b.has(i + 1) || b.has(i - 21) || b.has(i + 21))
}

/// Field `i` of the 20x20 board touches a field of `b` corner to corner.
pub open spec fn corner_of(b: Bitboard, i: int) -> bool {
    is_valid_field(i) && (b.has(i - 22) || b.has(i + 22) || b.has(i - 20) || b.has(i + 20))
}

/// Field `i` is free and color `c` could place a piece there touching its own corner.
pub open spec fn open_corner(s: GameState, c: int, i: int) -> bool {
    corner_of(s.board[c], i) && !occupied_spec(s, i) && !next_to(s.board[c], i)
}

/// Field `i` touches color `c` corner to corner but is taken.
pub open spec fn blocked_corner(s: GameState, c: int, i: int) -> bool {
    corner_of(s.board[c], i) && !next_to(s.board[c], i) && occupied_spec(s, i)
}

/// Field `i` is taken and next to color `c`.
pub open spec fn contact(s: GameState, c: int, i: int) -> bool {
    occupied_spec(s, i) && next_to(s.board[c], i)
}

/// Field `i` belongs to team `t` (0: blue and red, 1: yellow and green).
pub open spec fn team_field(s: GameState, t: int, i: int) -> bool {
    s.board[t].has(i) || s.board[t + 2].has(i)
}

/// The fields around the center and on the diagonals that are worth holding.
pub open spec fn valuable_fields_spec() -> Bitboard {
    Bitboard(
        4096,
        10966141185668210596808960154823295996,
        81778714517053366965726746058431544,
        1000815853617977686608561488208592896,
    )
}

/// Color `c` has skipped and its last piece was the monomino.
pub open spec fn last_monomino(s: GameState, c: int) -> int {
    if skip_bit(s.skipped, c) && s.monomino_placed_last[c] {
        1
    } else {
        0
    }
}

/// Twice the weighted sum of the differences between team one and team two: fields (weight
/// 25), free corner fields (11), blocked corner fields (2.5), valuable fields (7.5), contacts
/// (15), free corner fields of both colors of a team (-50) and finished games ending with the
/// monomino (70).
pub open spec fn double_evaluation(s: GameState) -> int {
    let fields = count_of(|i: int| team_field(s, 0, i)) - count_of(|i: int| team_field(s, 1, i));
    let corners = count_of(|i: int| open_corner(s, 0, i) || open_corner(s, 2, i)) - count_of(
        |i: int| open_corner(s, 1, i) || open_corner(s, 3, i),
    );
    let shared = count_of(|i: int| open_corner(s, 0, i) && open_corner(s, 2, i)) - count_of(
        |i: int| open_corner(s, 1, i) && open_corner(s, 3, i),
    );
    let blocked = count_of(|i: int| blocked_corner(s, 0, i) || blocked_corner(s, 2, i))
        - count_of(|i: int| blocked_corner(s, 1, i) || blocked_corner(s, 3, i));
    let valuable = count_of(|i: int| team_field(s, 0, i) && valuable_fields_spec().has(i))
        - count_of(|i: int| team_field(s, 1, i) && valuable_fields_spec().has(i));
    let contacts = count_of(|i: int| contact(s, 0, i) || contact(s, 2, i)) - count_of(
        |i: int| contact(s, 1, i) || contact(s, 3, i),
    );
    let monomino = last_monomino(s, 0) + last_monomino(s, 2) - last_monomino(s, 1)
        - last_monomino(s, 3);
    50 * fields + 22 * corners + 5 * blocked + 15 * valuable + 30 * contacts - 100 * shared + 140
        * monomino
}

/// Half of `v`, rounded half away from zero.
pub open spec fn half_rounded(v: int) -> int {
    if v >= 0 {
        (v + 1) / 2
    } else {
        -((-v + 1) / 2)
    }
}

/// `v` clamped to the range of `i16`.
pub open spec fn clamp_i16(v: int) -> int {
    if v > 32767 {
        32767
    } else if v < -32768 {
        -32768
    } else {
        v
    }
}

/// The game is over: every color has skipped, or more than 100 moves were made.
pub open spec fn game_over(s: GameState) -> bool {
    (s.skipped & 15u64) == 15u64 || s.ply > 100
}

/// -1 when blue or red is to move, +1 when yellow or green is.
pub open spec fn team_sign(s: GameState) -> int {
    if s.ply % 2 == 1 {
        1
    } else {
        -1
    }
}

/// The evaluation of a position for the color to move: a won or lost game is worth the mate
/// score plus the result; otherwise the weighted differences of `double_evaluation`, halved and
/// rounded.
pub open spec fn evaluation_spec(s: GameState) -> int {
    let result = game_result_spec(s);
    if game_over(s) {
        -(if result > 0 {
            MATE_SCORE + result
        } else {
            -MATE_SCORE + result
        }) * team_sign(s)
    } else {
        clamp_i16(half_rounded(double_evaluation(s))) * -team_sign(s)
    }
}

proof fn lemma_count_is(b: Bitboard, f: spec_fn(int) -> bool)
    requires
        forall|i: int| #[trigger] b.has(i) == f(i),
    ensures
        b.count_ones_spec() == count_of(f),
{
    lemma_count_board(b);
    assert((|i: int| b.has(i)) =~= f);
}

/// On sane boards a game result lies within 440 points either way.
pub proof fn lemma_result_bounds(s: GameState)
    requires
        boards_sane(s),
    ensures
        -440 <= game_result_spec(s) <= 440,
{
    lemma_count_board(s.board[0]);
    lemma_count_board(s.board[1]);
    lemma_count_board(s.board[2]);
    lemma_count_board(s.board[3]);
    let b0 = s.board[0];
    let b1 = s.board[1];
    let b2 = s.board[2];
    let b3 = s.board[3];
    assert forall|i: int| !(#[trigger] b0.has(i) && b2.has(i)) by {
        if b0.has(i) {
            assert(!s.board[2].has(i));
        }
    }
    assert forall|i: int| !(#[trigger] b1.has(i) && b3.has(i)) by {
        if b1.has(i) {
            assert(!s.board[3].has(i));
        }
    }
    assert forall|i: int| #[trigger] b0.has(i) implies is_valid_field(i) by {
        if b0.has(i) {
            assert(s.board[0].has(i));
        }
    }
    assert forall|i: int| #[trigger] b1.has(i) implies is_valid_field(i) by {
        if b1.has(i) {
            assert(s.board[1].has(i));
        }
    }
    assert forall|i: int| #[trigger] b2.has(i) implies is_valid_field(i) by {
        if b2.has(i) {
            assert(s.board[2].has(i));
        }
    }
    assert forall|i: int| #[trigger] b3.has(i) implies is_valid_field(i) by {
        if b3.has(i) {
            assert(s.board[3].has(i));
        }
    }
    lemma_count_two(|i: int| b0.has(i), |i: int| b2.has(i));
    lemma_count_two(|i: int| b1.has(i), |i: int| b3.has(i));
    assert(0 <= score(s, 0) <= b0.count_ones_spec() + 20);
    assert(0 <= score(s, 2) <= b2.count_ones_spec() + 20);
    assert(0 <= score(s, 1) <= b1.count_ones_spec() + 20);
    assert(0 <= score(s, 3) <= b3.count_ones_spec() + 20);
}

/// The bounds of the team one side of `double_evaluation`.
proof fn lemma_side_bounds(s: GameState, t: int)
    requires
        boards_sane(s),
        t == 0 || t == 1,
    ensures
        50 * count_of(|i: int| team_field(s, t, i)) + 22 * count_of(
            |i: int| open_corner(s, t, i) || open_corner(s, t + 2, i),
        ) + 5 * count_of(|i: int| blocked_corner(s, t, i) || blocked_corner(s, t + 2, i)) + 15
            * count_of(|i: int| team_field(s, t, i) && valuable_fields_spec().has(i)) + 30
            * count_of(|i: int| contact(s, t, i) || contact(s, t + 2, i)) <= 8800 + 78 * count_of(
            |i: int| occupied_spec(s, i),
        ),
        count_of(|i: int| open_corner(s, t, i) && open_corner(s, t + 2, i)) + count_of(
            |i: int| occupied_spec(s, i),
        ) <= 400,
{
    let occ = |i: int| occupied_spec(s, i);
    assert forall|i: int| #[trigger] occ(i) implies is_valid_field(i) by {
        {
            if s.board[0].has(i) {
            } else if s.board[1].has(i) {
            } else if s.board[2].has(i) {
            } else {
                assert(s.board[3].has(i));
            }
        }
    }
    let f_team = |i: int| team_field(s, t, i);
    let f_corner = |i: int| open_corner(s, t, i) || open_corner(s, t + 2, i);
    let f_blocked = |i: int| blocked_corner(s, t, i) || blocked_corner(s, t + 2, i);
    let f_valuable = |i: int| team_field(s, t, i) && valuable_fields_spec().has(i);
    let f_contact = |i: int| contact(s, t, i) || contact(s, t + 2, i);
    let f_shared = |i: int| open_corner(s, t, i) && open_corner(s, t + 2, i);
    lemma_count_sub(f_team, occ);
    lemma_count_sub(f_blocked, occ);
    lemma_count_sub(f_valuable, occ);
    lemma_count_sub(f_contact, occ);
    lemma_count_two(f_corner, occ);
    lemma_count_two(f_shared, occ);
}

/// On sane boards the weighted sum stays well inside the range of `i16`.
pub proof fn lemma_evaluation_bounds(s: GameState)
    requires
        boards_sane(s),
    ensures
        -49080 <= double_evaluation(s) <= 49080,
{
    lemma_side_bounds(s, 0);
    lemma_side_bounds(s, 1);
}

/// The fields around the center and on the diagonals that are worth holding.
pub fn valuable_fields() -> (r: Bitboard)
    ensures
        r == valuable_fields_spec(),
{
    Bitboard(
        4096,
        10966141185668210596808960154823295996,
        81778714517053366965726746058431544,
        1000815853617977686608561488208592896,
    )
}

/// The number of set bits of `b` as an `i32`.
fn count(b: Bitboard, Ghost(f): Ghost<spec_fn(int) -> bool>) -> (r: i32)
    requires
        forall|i: int| #[trigger] b.has(i) == f(i),
    ensures
        r == count_of(f),
        0 <= r <= 512,
{
    proof {
        lemma_count_is(b, f);
    }
    b.count_ones() as i32
}

/// The differences of free corner fields and of free corner fields shared by both colors of a
/// team, given the free corner fields of each color.
fn corner_terms(p0: Bitboard, p1: Bitboard, p2: Bitboard, p3: Bitboard, Ghost(s): Ghost<GameState>) -> (r: (i32, i32))
    requires
        forall|i: int| #[trigger] p0.has(i) == open_corner(s, 0, i),
        forall|i: int| #[trigger] p1.has(i) == open_corner(s, 1, i),
        forall|i: int| #[trigger] p2.has(i) == open_corner(s, 2, i),
        forall|i: int| #[trigger] p3.has(i) == open_corner(s, 3, i),
    ensures
        r.0 == count_of(|i: int| open_corner(s, 0, i) || open_corner(s, 2, i)) - count_of(
            |i: int| open_corner(s, 1, i) || open_corner(s, 3, i),
        ),
        r.1 == count_of(|i: int| open_corner(s, 0, i) && open_corner(s, 2, i)) - count_of(
            |i: int| open_corner(s, 1, i) && open_corner(s, 3, i),
        ),
        -512 <= r.0 <= 512,
        -512 <= r.1 <= 512,
{
    let corners = count(p0.or(p2), Ghost(|i: int| open_corner(s, 0, i) || open_corner(s, 2, i)))
        - count(p1.or(p3), Ghost(|i: int| open_corner(s, 1, i) || open_corner(s, 3, i)));
    let shared = count(p0.and(p2), Ghost(|i: int| open_corner(s, 0, i) && open_corner(s, 2, i)))
        - count(p1.and(p3), Ghost(|i: int| open_corner(s, 1, i) && open_corner(s, 3, i)));
    (corners, shared)
}

/// The difference of blocked corner fields, given the taken fields and the neighbours and
/// corner fields of each color.
fn blocked_term(
    all: Bitboard,
    n0: Bitboard,
    n1: Bitboard,
    n2: Bitboard,
    n3: Bitboard,
    d0: Bitboard,
    d1: Bitboard,
    d2: Bitboard,
    d3: Bitboard,
    Ghost(s): Ghost<GameState>,
) -> (r: i32)
    requires
        forall|i: int| #[trigger] all.has(i) == occupied_spec(s, i),
        forall|i: int| #[trigger] n0.has(i) == next_to(s.board[0], i),
        forall|i: int| #[trigger] n1.has(i) == next_to(s.board[1], i),
        forall|i: int| #[trigger] n2.has(i) == next_to(s.board[2], i),
        forall|i: int| #[trigger] n3.has(i) == next_to(s.board[3], i),
        forall|i: int| #[trigger] d0.has(i) == corner_of(s.board[0], i),
        forall|i: int| #[trigger] d1.has(i) == corner_of(s.board[1], i),
        forall|i: int| #[trigger] d2.has(i) == corner_of(s.board[2], i),
        forall|i: int| #[trigger] d3.has(i) == corner_of(s.board[3], i),
    ensures
        r == count_of(|i: int| blocked_corner(s, 0, i) || blocked_corner(s, 2, i)) - count_of(
            |i: int| blocked_corner(s, 1, i) || blocked_corner(s, 3, i),
        ),
        -512 <= r <= 512,
{
    let blocked_one = d0.and(n0.not()).and(all).or(d2.and(n2.not()).and(all));
    let blocked_two = d1.and(n1.not()).and(all).or(d3.and(n3.not()).and(all));
    count(blocked_one, Ghost(|i: int| blocked_corner(s, 0, i) || blocked_corner(s, 2, i)))
        - count(blocked_two, Ghost(|i: int| blocked_corner(s, 1, i) || blocked_corner(s, 3, i)))
}

/// The evaluation fits an `i16`: in a finished game the result lies within 767 points either
/// way, otherwise the rounded sum is not the lowest `i16` when yellow or green is to move.
pub open spec fn evaluation_defined(s: GameState) -> bool {
    if game_over(s) {
        -767 <= game_result_spec(s) <= 767
    } else {
        !(clamp_i16(half_rounded(double_evaluation(s))) == -32768 && s.ply % 2 == 1)
    }
}

/// Every count of `double_evaluation` is at most 512, so the weighted sum fits an `i32`.
proof fn lemma_count_bounds(s: GameState)
    ensures
        -114000 <= double_evaluation(s) <= 114000,
{
    lemma_count_at_most(|i: int| team_field(s, 0, i));
    lemma_count_at_most(|i: int| team_field(s, 1, i));
    lemma_count_at_most(|i: int| open_corner(s, 0, i) || open_corner(s, 2, i));
    lemma_count_at_most(|i: int| open_corner(s, 1, i) || open_corner(s, 3, i));
    lemma_count_at_most(|i: int| open_corner(s, 0, i) && open_corner(s, 2, i));
    lemma_count_at_most(|i: int| open_corner(s, 1, i) && open_corner(s, 3, i));
    lemma_count_at_most(|i: int| blocked_corner(s, 0, i) || blocked_corner(s, 2, i));
    lemma_count_at_most(|i: int| blocked_corner(s, 1, i) || blocked_corner(s, 3, i));
    lemma_count_at_most(|i: int| team_field(s, 0, i) && valuable_fields_spec().has(i));
    lemma_count_at_most(|i: int| team_field(s, 1, i) && valuable_fields_spec().has(i));
    lemma_count_at_most(|i: int| contact(s, 0, i) || contact(s, 2, i));
    lemma_count_at_most(|i: int| contact(s, 1, i) || contact(s, 3, i));
}

proof fn lemma_count_at_most(f: spec_fn(int) -> bool)
    ensures
        count_of(f) <= 512,
{
    crate::bits::lemma_u128_ones_bound(crate::geometry::board_of(f).0, 128);
    crate::bits::lemma_u128_ones_bound(crate::geometry::board_of(f).1, 128);
    crate::bits::lemma_u128_ones_bound(crate::geometry::board_of(f).2, 128);
    crate::bits::lemma_u128_ones_bound(crate::geometry::board_of(f).3, 128);
}

/// Sane boards have a defined evaluation.
pub proof fn lemma_sane_evaluation_defined(s: GameState)
    requires
        boards_sane(s),
    ensures
        evaluation_defined(s),
{
    lemma_result_bounds(s);
    lemma_evaluation_bounds(s);
}

/// The evaluation of a position for the color to move (see `evaluation_spec`). The weights are
/// multiples of one half, so the weighted sum is computed exactly, in halves, and then rounded
/// half away from zero.
#[verifier::rlimit(60)]
pub fn static_evaluation(state: &GameState) -> (r: i16)
    requires
        evaluation_defined(*state),
    ensures
        r == evaluation_spec(*state),
{
    let team = state.get_team();
    if state.is_game_over() {
        let result = state.game_result();
        let v: i16 = if result > 0 {
            MATE_SCORE + result
        } else {
            -MATE_SCORE + result
        };
        proof {
            let (x, t) = (-v as int, team as int);
            assert(x * t == if t == 1 { x } else { -x }) by (nonlinear_arith)
                requires t == 1 || t == -1;
        }
        return -v * team;
    }
    let ghost s = *state;
    let b0 = state.board[0];
    let b1 = state.board[1];
    let b2 = state.board[2];
    let b3 = state.board[3];
    let one_fields = b0.or(b2);
    let two_fields = b1.or(b3);
    let all = one_fields.or(two_fields);
    let n0 = b0.neighbours();
    let n1 = b1.neighbours();
    let n2 = b2.neighbours();
    let n3 = b3.neighbours();
    let d0 = b0.diagonal_neighbours();
    let d1 = b1.diagonal_neighbours();
    let d2 = b2.diagonal_neighbours();
    let d3 = b3.diagonal_neighbours();
    let p0 = d0.and(all.or(n0).not());
    let p1 = d1.and(all.or(n1).not());
    let p2 = d2.and(all.or(n2).not());
    let p3 = d3.and(all.or(n3).not());
    let fields = count(one_fields, Ghost(|i: int| team_field(s, 0, i))) - count(
        two_fields,
        Ghost(|i: int| team_field(s, 1, i)),
    );
    let (corners, shared) = corner_terms(p0, p1, p2, p3, Ghost(s));
    let blocked = blocked_term(all, n0, n1, n2, n3, d0, d1, d2, d3, Ghost(s));
    let vf = valuable_fields();
    let valuable = count(
        one_fields.and(vf),
        Ghost(|i: int| team_field(s, 0, i) && valuable_fields_spec().has(i)),
    ) - count(
        two_fields.and(vf),
        Ghost(|i: int| team_field(s, 1, i) && valuable_fields_spec().has(i)),
    );
    let contacts = count(
        all.and(n0).or(all.and(n2)),
        Ghost(|i: int| contact(s, 0, i) || contact(s, 2, i)),
    ) - count(all.and(n1).or(all.and(n3)), Ghost(|i: int| contact(s, 1, i) || contact(s, 3, i)));
    let m0: i32 = if state.has_color_skipped(0) && state.monomino_placed_last[0] { 1 } else { 0 };
    let m1: i32 = if state.has_color_skipped(1) && state.monomino_placed_last[1] { 1 } else { 0 };
    let m2: i32 = if state.has_color_skipped(2) && state.monomino_placed_last[2] { 1 } else { 0 };
    let m3: i32 = if state.has_color_skipped(3) && state.monomino_placed_last[3] { 1 } else { 0 };
    let monomino = m0 + m2 - m1 - m3;
    let double = 50 * fields + 22 * corners + 5 * blocked + 15 * valuable + 30 * contacts - 100
        * shared + 140 * monomino;
    proof {
        assert(double == double_evaluation(s));
    }
    let rounded: i32 = if double >= 0 {
        ((double + 1) as u32 / 2) as i32
    } else {
        -(((-double + 1) as u32 / 2) as i32)
    };
    let clamped: i16 = if rounded > 32767 {
        32767
    } else if rounded < -32768 {
        -32768
    } else {
        rounded as i16
    };
    proof {
        lemma_count_bounds(s);
        let (c, t) = (clamped as int, team as int);
        assert(c * -t == if t == 1 { -c } else { c }) by (nonlinear_arith)
            requires t == 1 || t == -1;
    }
    clamped * -team
}

/// On sane boards the evaluation lies within 32440 points either way.
pub proof fn lemma_evaluation_range(s: GameState)
    requires
        boards_sane(s),
    ensures
        -32440 <= evaluation_spec(s) <= 32440,
{
    lemma_result_bounds(s);
    lemma_evaluation_bounds(s);
    let v = clamp_i16(half_rounded(double_evaluation(s)));
    assert(-24540 <= v <= 24540);
    let t = team_sign(s);
    assert(v * -t == if t == 1 { -v } else { v }) by (nonlinear_arith)
        requires t == 1 || t == -1;
    let result = game_result_spec(s);
    let m = if result > 0 { MATE_SCORE + result } else { -MATE_SCORE + result };
    assert(-m * t == if t == 1 { -m } else { m }) by (nonlinear_arith)
        requires t == 1 || t == -1;
}

/// An unfinished game is scored from the side of the color to move: the rounded weighted
/// advantage of blue and red when blue or red is to move, its negation when yellow or green is.
pub proof fn lemma_unfinished_game_score(s: GameState)
    requires
        !game_over(s),
    ensures
        s.ply % 2 == 0 ==> evaluation_spec(s) == clamp_i16(half_rounded(double_evaluation(s))),
        s.ply % 2 == 1 ==> evaluation_spec(s) == -clamp_i16(half_rounded(double_evaluation(s))),
{
    let v = clamp_i16(half_rounded(double_evaluation(s)));
    let t = team_sign(s);
    assert(v * -t == if t == 1 { -v } else { v }) by (nonlinear_arith)
        requires
            t == 1 || t == -1,
    ;
}

/// A finished game is scored from the side of the color to move: when its team is ahead the
/// evaluation is the mate score plus the margin, when its team is behind it is the negation of
/// that. Blue and red are ahead when the result is positive, yellow and green when it is
/// negative.
pub proof fn lemma_finished_game_score(s: GameState)
    requires
        game_over(s),
        game_result_spec(s) != 0,
    ensures
        ({
            let result = game_result_spec(s);
            let margin = if result > 0 { result } else { -result };
            let mover_ahead = if s.ply % 2 == 0 { result > 0 } else { result < 0 };
            &&& mover_ahead ==> evaluation_spec(s) == MATE_SCORE + margin
            &&& !mover_ahead ==> evaluation_spec(s) == -(MATE_SCORE + margin)
            &&& mover_ahead ==> evaluation_spec(s) > MATE_SCORE
            &&& !mover_ahead ==> evaluation_spec(s) < -MATE_SCORE
        }),
{
}

} // verus!

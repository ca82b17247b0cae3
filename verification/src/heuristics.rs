use vstd::prelude::*;
use crate::bitboard::{Bitboard, is_valid_field, is_start_field, valid_fields, start_fields};
use crate::evaluation::{next_to, corner_of};
use crate::gamestate::GameState;
use crate::geometry::{board_of, lemma_board_of};

verus! {

broadcast use vstd::array::group_array_axioms;

/// Field `i` is one at which color `c` could place a new piece touching its own corner, with
/// `occupied` as the taken fields; in the first round, a corner of the board no other color
/// has.
pub open spec fn placement_of(s: GameState, occupied: Bitboard, c: int, i: int) -> bool {
    let own = s.board[c];
    if s.ply > 3 {
        corner_of(own, i) && !occupied.has(i) && !next_to(own, i)
    } else {
        is_start_field(i) && !(occupied.has(i) && !own.has(i))
    }
}

/// The fields `reachable` grows to in one step: its fields and the free fields next to them.
pub open spec fn reach_step(reachable: Bitboard, unreachable: Bitboard) -> Bitboard {
    board_of(|i: int| reachable.has(i) || (next_to(reachable, i) && !unreachable.has(i)))
}

/// The fields reached from `start` in `n` steps, never entering `unreachable`.
pub open spec fn reach_spec(start: Bitboard, unreachable: Bitboard, n: nat) -> Bitboard
    decreases n,
{
    if n == 0 {
        start
    } else {
        reach_step(reach_spec(start, unreachable, (n - 1) as nat), unreachable)
    }
}

/// The fields at which each color could place a new piece (see `placement_of`).
pub fn calculate_placement_fields(state: &GameState, occupied: &Bitboard) -> (r: [Bitboard; 4])
    ensures
        forall|c: int, i: int| 0 <= c < 4 ==> #[trigger] r[c].has(i) == placement_of(*state, *occupied, c, i),
{
    let e = Bitboard::empty();
    let mut placement_fields: [Bitboard; 4] = [e, e, e, e];
    proof {
        crate::bitboard::lemma_board_constants();
    }
    let mut color: usize = 0;
    while color < 4
        invariant
            color <= 4,
            forall|c: int, i: int| 0 <= c < color ==> #[trigger] placement_fields[c].has(i) == placement_of(*state, *occupied, c, i),
        decreases 4 - color,
    {
        let current_color_fields = state.board[color];
        let other_colors_fields = occupied.and(current_color_fields.not());
        let legal_fields = occupied.or(current_color_fields.neighbours()).not().and(valid_fields());
        let p = if state.ply > 3 {
            current_color_fields.diagonal_neighbours().and(legal_fields)
        } else {
            start_fields().and(other_colors_fields.not())
        };
        proof {
            crate::bitboard::lemma_board_constants();
        }
        placement_fields[color] = p;
        color = color + 1;
    }
    placement_fields
}

/// The fields each color could reach in four steps from its placement fields without entering
/// taken fields or fields next to its own.
pub fn estimate_reachable_fields(
    state: &GameState,
    placement_fields: &[Bitboard; 4],
    occupied: &Bitboard,
) -> (r: [Bitboard; 4])
    ensures
        forall|c: int|
            0 <= c < 4 ==> #[trigger] r[c] == reach_spec(
                placement_fields[c],
                board_of(|i: int| next_to(state.board[c], i) || occupied.has(i)),
                4,
            ),
{
    let e = Bitboard::empty();
    let mut reachable_fields: [Bitboard; 4] = [e, e, e, e];
    let mut color: usize = 0;
    while color < 4
        invariant
            color <= 4,
            forall|c: int|
                0 <= c < color ==> #[trigger] reachable_fields[c] == reach_spec(
                    placement_fields[c],
                    board_of(|i: int| next_to(state.board[c], i) || occupied.has(i)),
                    4,
                ),
        decreases 4 - color,
    {
        let mut reachable = placement_fields[color];
        let unreachable = state.board[color].neighbours().or(*occupied);
        let ghost f = |i: int| next_to(state.board[color as int], i) || occupied.has(i);
        proof {
            lemma_board_of(f);
            assert forall|i: int| #[trigger] unreachable.has(i) == board_of(f).has(i) by {
            }
            crate::bitboard::lemma_has_ext(unreachable, board_of(f));
        }
        let mut step: usize = 0;
        while step < 4
            invariant
                step <= 4,
                color < 4,
                unreachable == board_of(|i: int| next_to(state.board[color as int], i) || occupied.has(i)),
                reachable == reach_spec(placement_fields[color as int], unreachable, step as nat),
            decreases 4 - step,
        {
            let prev = reachable;
            reachable = prev.or(prev.neighbours().and(unreachable.not()));
            proof {
                let g = |i: int| prev.has(i) || (next_to(prev, i) && !unreachable.has(i));
                lemma_board_of(g);
                assert forall|i: int| #[trigger] reachable.has(i) == board_of(g).has(i) by {
                }
                crate::bitboard::lemma_has_ext(reachable, board_of(g));
            }
            step = step + 1;
        }
        reachable_fields[color] = reachable;
        color = color + 1;
    }
    reachable_fields
}

/// The fields at which each color could leak into an area it does not reach yet: reachable
/// fields next to a taken field that touch, corner to corner, one of its placement fields that
/// lies next to a taken field.
pub fn calculate_leaks(
    state: &GameState,
    placement_fields: &[Bitboard; 4],
    reachable_fields: &[Bitboard; 4],
    occupied: &Bitboard,
) -> (r: [Bitboard; 4])
    ensures
        forall|c: int, i: int|
            0 <= c < 4 ==> #[trigger] r[c].has(i) == (reachable_fields[c].has(i) && corner_of(
                board_of(
                    |j: int|
                        placement_fields[c].has(j) && next_to(*occupied, j) && !(occupied.has(j)
                            || next_to(state.board[c], j)),
                ),
                i,
            ) && next_to(*occupied, i)),
{
    let e = Bitboard::empty();
    let mut leaks: [Bitboard; 4] = [e, e, e, e];
    let mut color: usize = 0;
    while color < 4
        invariant
            color <= 4,
            forall|c: int, i: int|
                0 <= c < color ==> #[trigger] leaks[c].has(i) == (reachable_fields[c].has(i)
                    && corner_of(
                    board_of(
                        |j: int|
                            placement_fields[c].has(j) && next_to(*occupied, j) && !(occupied.has(j)
                                || next_to(state.board[c], j)),
                    ),
                    i,
                ) && next_to(*occupied, i)),
        decreases 4 - color,
    {
        let occupied_neighbours = occupied.neighbours();
        let corners = placement_fields[color].and(occupied_neighbours).and(
            occupied.or(state.board[color].neighbours()).not(),
        );
        let ghost f = |j: int|
            placement_fields[color as int].has(j) && next_to(*occupied, j) && !(occupied.has(j)
                || next_to(state.board[color as int], j));
        proof {
            lemma_board_of(f);
            assert forall|j: int| #[trigger] corners.has(j) == board_of(f).has(j) by {
            }
            crate::bitboard::lemma_has_ext(corners, board_of(f));
        }
        leaks[color] = reachable_fields[color].and(corners.diagonal_neighbours()).and(
            occupied_neighbours,
        );
        color = color + 1;
    }
    leaks
}

} // verus!

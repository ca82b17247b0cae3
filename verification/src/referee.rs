use vstd::prelude::*;
use crate::action::{Action, SKIP_CODE};
use crate::actionlist::ActionList;
use crate::evaluation::game_over;
use crate::gamestate::{GameState, skip_bit, legal_move, possible_actions};
use crate::integrity::{score, game_result_spec};

verus! {

/// What happens next in a game between two players.
#[derive(Clone, Copy, Debug, PartialEq, Eq)]
pub enum GameStep {
    /// The color to move has no move: it skips.
    Skip,
    /// The player with this number (0 or 1) is asked for its move.
    Ask(u8),
    /// The game is over: its result and the points of the team of blue and red and of the team
    /// of yellow and green.
    Finished(i16, u32, u32),
}

/// The color to move has skipped before or has no legal move.
pub open spec fn must_skip(s: GameState) -> bool {
    skip_bit(s.skipped, (s.ply % 4) as int) || !(exists|d: int, sh: int| legal_move(s, d, sh))
}

impl GameState {
    /// The points of color `color` (see `score`).
    pub fn color_score(&self, color: usize) -> (r: u32)
        requires
            color < 4,
        ensures
            r == score(*self, color as int),
            r <= 532,
    {
        let fields = self.board[color].count_ones();
        if fields == 89 {
            if self.monomino_placed_last[color] {
                fields + 20
            } else {
                fields + 15
            }
        } else {
            fields
        }
    }

    /// The points of the two teams: blue and red, then yellow and green.
    pub fn team_scores(&self) -> (r: (u32, u32))
        ensures
            r.0 == score(*self, 0) + score(*self, 2),
            r.1 == score(*self, 1) + score(*self, 3),
    {
        (self.color_score(0) + self.color_score(2), self.color_score(1) + self.color_score(3))
    }
}

/// The next step of a game in which player 0 moves at the plies whose parity is `first`:
/// the end when the game is over, a skip when the color to move has no move, otherwise a
/// request to the player whose turn it is.
pub fn next_step(state: &GameState, first: u8) -> (r: GameStep)
    ensures
        game_over(*state) ==> r == GameStep::Finished(
            game_result_spec(*state) as i16,
            (score(*state, 0) + score(*state, 2)) as u32,
            (score(*state, 1) + score(*state, 3)) as u32,
        ),
        !game_over(*state) && must_skip(*state) ==> r == GameStep::Skip,
        !game_over(*state) && !must_skip(*state) ==> r == GameStep::Ask(
            if state.ply % 2 == first {
                0u8
            } else {
                1u8
            },
        ),
{
    if state.is_game_over() {
        let result = state.game_result();
        let one = state.color_score(0) + state.color_score(2);
        let two = state.color_score(1) + state.color_score(3);
        return GameStep::Finished(result, one, two);
    }
    let mut al = ActionList::default();
    state.get_possible_actions(&mut al);
    if al.get(0).is_skip() {
        proof {
            if !must_skip(*state) {
                let a = al@[0];
                assert(legal_move(*state, a.destination_spec(), a.shape_spec()));
            }
        }
        GameStep::Skip
    } else {
        if state.ply % 2 == first {
            GameStep::Ask(0)
        } else {
            GameStep::Ask(1)
        }
    }
}

} // verus!

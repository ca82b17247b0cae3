use vstd::prelude::*;
use rand::rngs::SmallRng;
use crate::action::Action;
use crate::actionlist::ActionList;
use crate::gamestate::{GameState, possible_actions};
use crate::rng::{entropy_rng, next_u64};
use crate::sanity::possible_action;

verus! {

/// A player of the game: it is asked for its move in a position, told when a new game
/// begins, and given the time it may think.
pub trait Player {
    /// The move of the player in `state`.
    fn on_move_request(&mut self, state: &GameState) -> Action;

    /// A new game begins.
    fn on_reset(&mut self) {
    }

    /// The player may think `time` milliseconds per move.
    fn set_time_limit(&mut self, _time: u128) {
    }
}

/// A player that plays a random one of its possible actions.
pub struct SimpleClient {
    rng: SmallRng,
    action_list: ActionList,
}

/// The action at place `random` modulo the length of the list, counted as an index of the
/// machine's word size.
pub open spec fn picked(actions: Seq<Action>, random: u64) -> Action {
    actions[((random as usize) as int) % (actions.len() as int)]
}

impl SimpleClient {
    /// The actions that the last move request found.
    pub closed spec fn actions(&self) -> Seq<Action> {
        self.action_list@
    }

    /// The action of `actions` at place `random` modulo its length.
    pub fn pick_action(actions: &ActionList, random: u64) -> (r: Action)
        requires
            actions@.len() > 0,
        ensures
            r == picked(actions@, random),
    {
        let i = (random as usize) % actions.size();
        actions.get(i)
    }

    /// A random one of the possible actions of the color to move.
    pub fn get_action(&mut self, state: &GameState) -> (r: Action)
        ensures
            possible_actions(*state, final(self).actions()),
            final(self).actions().contains(r),
            possible_action(*state, r),
    {
        state.get_possible_actions(&mut self.action_list);
        let random = next_u64(&mut self.rng);
        let r = Self::pick_action(&self.action_list, random);
        proof {
            let acts = self.action_list@;
            let k = ((random as usize) as int) % (acts.len() as int);
            assert(acts[k] == r);
        }
        r
    }
}

impl Player for SimpleClient {
    fn on_move_request(&mut self, state: &GameState) -> (r: Action)
        ensures
            possible_action(*state, r),
    {
        self.get_action(state)
    }
}

impl Default for SimpleClient {
    /// A player with a generator seeded by the operating system.
    fn default() -> (r: Self)
        ensures
            r.actions() == Seq::<Action>::empty(),
    {
        SimpleClient { rng: entropy_rng(), action_list: ActionList::default() }
    }
}

} // verus!

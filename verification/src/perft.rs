use vstd::prelude::*;
use crate::action::{Action, SKIP_CODE};
use crate::actionlist::{ActionList, ActionListStack};
use crate::evaluation::game_over;
use crate::gamestate::{
    GameState, possible_actions, skip_bit, legal_move, legal_field, placement_field, action_done,
};
use crate::piece_type::{PieceType, shape_type_spec};
use crate::sanity::{
    next_state, same_position, possible_action, lemma_next_state, lemma_same_moves, lemma_undo_same,
};

verus! {

broadcast use vstd::array::group_array_axioms;

/// The position with the last-piece flags cleared and the skip record cut to the skips of the
/// four colors: what the moves and the end of the game depend on.
pub open spec fn reduced(s: GameState) -> GameState {
    GameState { monomino_placed_last: [false, false, false, false], skipped: s.skipped & 15u64, ..s }
}

/// Code `code` is an action that move generation offers in `s`: the skip when the color to
/// move has skipped or has no legal move, otherwise a legal move.
pub open spec fn offered(s: GameState, code: int) -> bool {
    let c = s.ply % 4;
    if skip_bit(s.skipped, c as int) || !(exists|d: int, sh: int| legal_move(s, d, sh)) {
        code == SKIP_CODE
    } else {
        legal_move(s, code / 128, code % 128)
    }
}

/// The number of move sequences of length `depth` from `s`, a finished game counting as one
/// sequence however much depth is left.
pub open spec fn perft_count(s: GameState, depth: nat) -> nat
    decreases depth, 65537nat,
{
    if depth == 0 || game_over(s) {
        1
    } else {
        offered_sum(s, depth, 65536)
    }
}

/// The counts one level deeper after each offered action whose code is below `n`.
pub open spec fn offered_sum(s: GameState, depth: nat, n: nat) -> nat
    decreases depth, n,
{
    if depth == 0 || n == 0 {
        0
    } else {
        offered_sum(s, depth, (n - 1) as nat) + if offered(s, n - 1) {
            perft_count(reduced(next_state(s, Action((n - 1) as u16))), (depth - 1) as nat)
        } else {
            0
        }
    }
}

/// The number of move sequences of length `depth` from the position of `s`.
pub open spec fn perft_spec(s: GameState, depth: nat) -> nat {
    perft_count(reduced(s), depth)
}

/// The count one level deeper after the action with code `code`.
pub open spec fn child_count(s: GameState, depth: nat, code: int) -> nat {
    perft_count(reduced(next_state(s, Action(code as u16))), (depth - 1) as nat)
}

/// The counts one level deeper after the actions of `acts`.
pub open spec fn list_sum(s: GameState, depth: nat, acts: Seq<Action>) -> nat
    decreases acts.len(),
{
    if acts.len() == 0 {
        0
    } else {
        list_sum(s, depth, acts.drop_last()) + child_count(s, depth, acts.last().0 as int)
    }
}

/// The counts one level deeper after the codes of `codes` below `n`.
pub open spec fn set_sum(s: GameState, depth: nat, codes: Set<int>, n: nat) -> nat
    decreases n,
{
    if n == 0 {
        0
    } else {
        set_sum(s, depth, codes, (n - 1) as nat) + if codes.contains(n - 1) {
            child_count(s, depth, n - 1)
        } else {
            0
        }
    }
}

/// The codes of the actions of `acts`.
pub open spec fn code_set(acts: Seq<Action>) -> Set<int> {
    Set::new(|c: int| exists|k: int| 0 <= k < acts.len() && acts[k].0 == c)
}

/// The bits of the two skip records agree but for the top `4 * depth`.
pub open spec fn low_kept(x: u64, y: u64, depth: nat) -> bool {
    ((x ^ y) << ((4 * depth) as u64)) == 0u64
}

proof fn lemma_set_insert(s: GameState, depth: nat, codes: Set<int>, x: int, n: nat)
    requires
        !codes.contains(x),
        0 <= x,
    ensures
        set_sum(s, depth, codes.insert(x), n) == set_sum(s, depth, codes, n) + if x < n {
            child_count(s, depth, x)
        } else {
            0
        },
    decreases n,
{
    if n > 0 {
        lemma_set_insert(s, depth, codes, x, (n - 1) as nat);
    }
}

proof fn lemma_list_set(s: GameState, depth: nat, acts: Seq<Action>)
    requires
        forall|k1: int, k2: int| 0 <= k1 < k2 < acts.len() ==> #[trigger] acts[k1] != #[trigger] acts[k2],
    ensures
        list_sum(s, depth, acts) == set_sum(s, depth, code_set(acts), 65536),
    decreases acts.len(),
{
    if acts.len() == 0 {
        lemma_set_empty(s, depth, code_set(acts), 65536);
    } else {
        let rest = acts.drop_last();
        lemma_list_set(s, depth, rest);
        let x = acts.last().0 as int;
        assert(!code_set(rest).contains(x)) by {
            if code_set(rest).contains(x) {
                let k = choose|k: int| 0 <= k < rest.len() && rest[k].0 == x;
                assert(acts[k] == acts[acts.len() - 1]);
            }
        }
        assert(code_set(acts) =~= code_set(rest).insert(x)) by {
            assert forall|c: int| code_set(acts).contains(c) implies code_set(rest).insert(x).contains(c) by {
                let k = choose|k: int| 0 <= k < acts.len() && acts[k].0 == c;
                if k < rest.len() {
                    assert(rest[k] == acts[k]);
                }
            }
            assert forall|c: int| code_set(rest).insert(x).contains(c) implies code_set(acts).contains(c) by {
                if c == x {
                    assert(acts[acts.len() - 1].0 == c);
                } else {
                    let k = choose|k: int| 0 <= k < rest.len() && rest[k].0 == c;
                    assert(acts[k] == rest[k]);
                }
            }
        }
        lemma_set_insert(s, depth, code_set(rest), x, 65536);
    }
}

proof fn lemma_set_empty(s: GameState, depth: nat, codes: Set<int>, n: nat)
    requires
        codes =~= Set::<int>::empty(),
    ensures
        set_sum(s, depth, codes, n) == 0,
    decreases n,
{
    if n > 0 {
        lemma_set_empty(s, depth, codes, (n - 1) as nat);
    }
}

proof fn lemma_set_offered(s: GameState, depth: nat, codes: Set<int>, n: nat)
    requires
        depth > 0,
        forall|c: int| 0 <= c < n ==> codes.contains(c) == offered(s, c),
    ensures
        set_sum(s, depth, codes, n) == offered_sum(s, depth, n),
    decreases n,
{
    if n > 0 {
        lemma_set_offered(s, depth, codes, (n - 1) as nat);
    }
}

proof fn lemma_list_prefix(s: GameState, depth: nat, acts: Seq<Action>, i: int)
    requires
        0 <= i <= acts.len(),
    ensures
        list_sum(s, depth, acts.take(i)) <= list_sum(s, depth, acts),
    decreases acts.len() - i,
{
    if i < acts.len() {
        lemma_list_prefix(s, depth, acts, i + 1);
        assert(acts.take(i + 1).drop_last() =~= acts.take(i));
    } else {
        assert(acts.take(i) =~= acts);
    }
}

/// The legal moves of a position do not depend on its skip record or last-piece flags.
proof fn lemma_reduced_moves(s: GameState, d: int, sh: int)
    ensures
        legal_move(reduced(s), d, sh) == legal_move(s, d, sh),
{
    let r = reduced(s);
    let c = (s.ply % 4) as int;
    assert((|i: int| legal_field(r, c, i)) =~= (|i: int| legal_field(s, c, i)));
    assert((|i: int| placement_field(r, c, i)) =~= (|i: int| placement_field(s, c, i)));
}

proof fn lemma_low_bits(x: u64, c: u64)
    by (bit_vector)
    requires
        c < 4,
    ensures
        ((x & 15u64) >> c) & 1u64 == (x >> c) & 1u64,
        (x & 15u64) & 15u64 == x & 15u64,
{
}

proof fn lemma_skip_low(b: u64, x: u64, c: u64)
    by (bit_vector)
    requires
        c < 4,
        b & 15u64 == x & 15u64,
    ensures
        ((b << 4u64) | (b & 15u64) | (1u64 << c)) & 15u64 == (((x & 15u64) << 4u64) | ((x & 15u64)
            & 15u64) | (1u64 << c)) & 15u64,
        b & 15u64 == (x & 15u64) & 15u64,
{
}

proof fn lemma_kept_skip(b: u64, t2: u64, c: u64, e: u64)
    by (bit_vector)
    requires
        c < 4,
        e <= 56,
        ((t2 ^ ((b << 4u64) | (b & 15u64) | (1u64 << c))) << e) == 0u64,
    ensures
        (((t2 >> 4u64) ^ b) << (e + 4u64)) == 0u64,
{
}

proof fn lemma_kept_wider(x: u64, y: u64, e: u64)
    by (bit_vector)
    requires
        e <= 56,
        ((x ^ y) << e) == 0u64,
    ensures
        ((x ^ y) << (e + 4u64)) == 0u64,
{
}

proof fn lemma_kept_trans(x: u64, y: u64, z: u64, k: u64)
    by (bit_vector)
    requires
        ((x ^ y) << k) == 0u64,
        ((y ^ z) << k) == 0u64,
    ensures
        ((x ^ z) << k) == 0u64,
{
}

proof fn lemma_kept_low(x: u64, y: u64, k: u64)
    by (bit_vector)
    requires
        4 <= k <= 60,
        ((x ^ y) << k) == 0u64,
    ensures
        x & 15u64 == y & 15u64,
{
}

proof fn lemma_kept_self(x: u64, k: u64)
    by (bit_vector)
    ensures
        ((x ^ x) << k) == 0u64,
{
}

/// The offered codes of the reduced position are the codes that move generation lists.
proof fn lemma_offered_list(s: GameState, acts: Seq<Action>)
    requires
        possible_actions(s, acts),
    ensures
        forall|k1: int, k2: int| 0 <= k1 < k2 < acts.len() ==> #[trigger] acts[k1] != #[trigger] acts[k2],
        forall|c: int| 0 <= c < 65536 ==> code_set(acts).contains(c) == offered(reduced(s), c),
        forall|k: int| 0 <= k < acts.len() ==> possible_action(s, #[trigger] acts[k]),
{
    let r = reduced(s);
    let col = s.ply % 4;
    lemma_low_bits(s.skipped, col as u64);
    assert(skip_bit(r.skipped, col as int) == skip_bit(s.skipped, col as int));
    assert(r.ply == s.ply);
    assert forall|d: int, sh: int| legal_move(r, d, sh) == legal_move(s, d, sh) by {
        lemma_reduced_moves(s, d, sh);
    }
    let no_move = skip_bit(s.skipped, col as int) || !(exists|d: int, sh: int| legal_move(s, d, sh));
    assert(no_move == (skip_bit(r.skipped, col as int) || !(exists|d: int, sh: int| legal_move(r, d, sh))));
    if no_move {
        assert(acts == seq![Action(SKIP_CODE)]);
        assert forall|c: int| 0 <= c < 65536 implies code_set(acts).contains(c) == offered(r, c) by {
            if c == SKIP_CODE as int {
                assert(acts[0].0 == c);
            }
        }
    } else {
        assert forall|c: int| 0 <= c < 65536 implies code_set(acts).contains(c) == offered(r, c) by {
            if code_set(acts).contains(c) {
                let k = choose|k: int| 0 <= k < acts.len() && acts[k].0 == c;
                assert(legal_move(s, acts[k].destination_spec(), acts[k].shape_spec()));
            }
            if offered(r, c) {
                assert(legal_move(s, c / 128, c % 128));
                assert(acts.contains(Action(((c / 128) * 128 + c % 128) as u16)));
                assert(((c / 128) * 128 + c % 128) == c);
                let k = choose|k: int| 0 <= k < acts.len() && acts[k] == Action(c as u16);
                assert(acts[k].0 == c);
            }
        }
    }
}

/// The state that a set action leads to from the reduced position, built field by field from
/// the state it led to from a position that agrees with it.
proof fn lemma_reduced_step(s0: GameState, before: GameState, after: GameState, a: Action)
    requires
        same_position(before, s0),
        before.skipped & 15u64 == s0.skipped & 15u64,
        action_done(before, after, a),
    ensures
        reduced(next_state(reduced(s0), a)) == reduced(after),
{
    let r = reduced(s0);
    let c = (before.ply % 4) as u64;
    lemma_low_bits(s0.skipped, c);
    if a.is_skip_spec() {
        let x = r.skipped;
        let t0 = GameState {
            skipped: (x << 4u64) | (x & 15u64) | (1u64 << c),
            monomino_placed_last: [false, false, false, false],
            ..after
        };
        assert(t0.board == r.board);
        assert(t0.pieces_left == r.pieces_left);
        assert(action_done(r, t0, a));
        lemma_next_state(r, t0, a);
        lemma_skip_low(before.skipped, s0.skipped, c);
        assert(reduced(t0).monomino_placed_last =~= reduced(after).monomino_placed_last);
        assert(reduced(t0) == reduced(after));
    } else {
        let mono = shape_type_spec(a.shape_spec() as usize) == PieceType::Monomino;
        let t0 = GameState {
            skipped: r.skipped,
            monomino_placed_last: [c == 0 && mono, c == 1 && mono, c == 2 && mono, c == 3 && mono],
            ..after
        };
        assert(action_done(r, t0, a));
        lemma_next_state(r, t0, a);
        lemma_low_bits(before.skipped, c);
        assert(reduced(t0).monomino_placed_last =~= reduced(after).monomino_placed_last);
        assert(reduced(t0) == reduced(after));
    }
}

/// The number of move sequences of length `depth` from the position (see `perft_spec`),
/// counted by making and taking back every move. The position is given back; of the skip
/// record all but the top `4 * depth` bits are.
pub fn perft(state: &mut GameState, depth: usize, als: &mut ActionListStack) -> (r: u64)
    requires
        depth <= 15,
        perft_spec(*old(state), depth as nat) <= u64::MAX,
    ensures
        r == perft_spec(*old(state), depth as nat),
        same_position(*final(state), *old(state)),
        low_kept(final(state).skipped, old(state).skipped, depth as nat),
        final(als).action_lists@.len() >= old(als).action_lists@.len(),
    decreases depth,
{
    let ghost s0 = *state;
    let ghost r0 = reduced(s0);
    proof {
        lemma_kept_self(s0.skipped, (4 * depth) as u64);
        lemma_low_bits(s0.skipped, 0);
    }
    if depth == 0 || state.is_game_over() {
        return 1;
    }
    als.reach(depth);
    let mut al = ActionList::default();
    std::mem::swap(&mut al, &mut als.action_lists[depth]);
    state.get_possible_actions(&mut al);
    let ghost acts = al@;
    let ghost total = list_sum(r0, depth as nat, acts);
    proof {
        lemma_offered_list(s0, acts);
        lemma_list_set(r0, depth as nat, acts);
        lemma_set_offered(r0, depth as nat, code_set(acts), 65536);
        assert(total == perft_spec(s0, depth as nat));
    }
    let n = al.size();
    let mut nodes: u64 = 0;
    let mut i: usize = 0;
    while i < n
        invariant
            1 <= depth <= 15,
            n == acts.len(),
            al@ == acts,
            i <= n,
            !game_over(s0),
            r0 == reduced(s0),
            total == list_sum(r0, depth as nat, acts),
            total <= u64::MAX,
            forall|k: int| 0 <= k < acts.len() ==> possible_action(s0, #[trigger] acts[k]),
            nodes == list_sum(r0, depth as nat, acts.take(i as int)),
            same_position(*state, s0),
            low_kept(state.skipped, s0.skipped, depth as nat),
            als.action_lists@.len() > depth,
            als.action_lists@.len() >= old(als).action_lists@.len(),
        decreases n - i,
    {
        let action = al.get(i);
        let ghost before = *state;
        proof {
            lemma_same_moves(s0, before, action);
            lemma_kept_low(before.skipped, s0.skipped, (4 * depth) as u64);
        }
        state.do_action(action);
        let ghost after = *state;
        proof {
            lemma_reduced_step(s0, before, after, action);
            lemma_list_prefix(r0, depth as nat, acts, i + 1);
            assert(acts.take(i + 1).drop_last() =~= acts.take(i as int));
            assert(acts.take(i + 1).last() == action);
        }
        let child = perft(state, depth - 1, als);
        let ghost t2 = *state;
        state.undo_action(action);
        proof {
            lemma_undo_same(before, after, t2, *state, action);
            let e = (4 * (depth - 1)) as u64;
            if action.is_skip_spec() {
                lemma_kept_skip(before.skipped, t2.skipped, (before.ply % 4) as u64, e);
            } else {
                lemma_kept_wider(t2.skipped, before.skipped, e);
            }
            assert(e + 4 == (4 * depth) as u64);
            lemma_kept_trans(state.skipped, before.skipped, s0.skipped, (4 * depth) as u64);
        }
        nodes = nodes + child;
        i = i + 1;
    }
    proof {
        assert(acts.take(n as int) =~= acts);
    }
    std::mem::swap(&mut al, &mut als.action_lists[depth]);
    nodes
}

} // verus!

use vstd::prelude::*;
use std::time::Instant;
use crate::action::Action;
use crate::actionlist::{ActionList, ActionListStack};
use crate::cache::{
    TranspositionTable, TranspositionTableEntry, EvaluationCache, slot, empty_entry,
    lemma_table_stays_empty,
};
use crate::clock::{now, elapsed, as_millis};
use crate::evaluation::{
    static_evaluation, evaluation_spec, game_over, MATE_SCORE, lemma_evaluation_range,
};
use crate::gamestate::{GameState, possible_actions, action_done, action_undone, skip_bit};
use crate::integrity::game_result_spec;
use crate::cache::EvaluationCacheEntry;
use crate::sanity::{
    boards_sane, possible_action, same_position, lemma_same_moves, lemma_possible_keeps_sane,
    lemma_undo_same,
};

verus! {

/// The deepest iteration of the search.
pub const MAX_SEARCH_DEPTH: usize = 40;

/// The highest score.
pub const MAX_SCORE: i16 = 32767;

/// The number of slots of the transposition table.
pub const TT_SIZE: usize = 20000000;

/// The number of slots of the evaluation cache.
pub const EVAL_CACHE_SIZE: usize = 1000000;

/// A principal variation search with iterative deepening, a transposition table and an
/// evaluation cache.
pub struct Searcher {
    pub nodes_searched: u64,
    pub root_ply: u8,
    pub stop: bool,
    pub action_list_stack: ActionListStack,
    pub principal_variation: ActionList,
    pub pv_table: ActionListStack,
    pub transposition_table: TranspositionTable,
    pub evaluation_cache: EvaluationCache,
    pub start_time: Instant,
    pub time_limit: u128,
}

/// A cached score: the empty mark, or an evaluation of a sane position.
pub open spec fn score_ok(x: i16) -> bool {
    x == -32768 || -32440 <= x <= 32440
}

/// The tables of the searcher are as the search leaves them: the transposition table has slots
/// and only empty ones, the evaluation cache has slots and holds evaluations.
pub open spec fn searcher_ok(s: Searcher) -> bool {
    &&& s.transposition_table.wf()
    &&& s.transposition_table.entries_spec() > 0
    &&& forall|k: int|
        0 <= k < s.transposition_table@.len() ==> #[trigger] s.transposition_table@[k] == empty_entry()
    &&& s.evaluation_cache.wf()
    &&& s.evaluation_cache.entries > 0
    &&& forall|k: int|
        0 <= k < s.evaluation_cache.cache@.len() ==> score_ok(
            #[trigger] s.evaluation_cache.cache@[k].score,
        )
}

/// The value of a position where the search stops: the cached score when the cache holds one
/// for its hash, else its evaluation.
pub open spec fn leaf_value(c: EvaluationCache, s: GameState) -> int {
    leaf_val(c.cache@, c.entries, s)
}

/// The value of a leaf for the cache slots `c` of a cache of `n` slots (see `leaf_value`).
pub open spec fn leaf_val(c: Seq<EvaluationCacheEntry>, n: usize, s: GameState) -> int {
    let e = c[slot(s.hash, n)];
    if e.hash == s.hash && e.score != -32768 {
        e.score as int
    } else {
        evaluation_spec(s)
    }
}

/// The cache slots after a leaf was valued: unchanged when the cache held its score, else with
/// its evaluation stored in its slot.
pub open spec fn after_leaf(c: Seq<EvaluationCacheEntry>, n: usize, s: GameState) -> Seq<
    EvaluationCacheEntry,
> {
    let e = c[slot(s.hash, n)];
    if e.hash == s.hash && e.score != -32768 {
        c
    } else {
        c.update(slot(s.hash, n), EvaluationCacheEntry { hash: s.hash, score: evaluation_spec(s) as i16 })
    }
}

/// A null-window node below the second level whose team to move has skipped with both colors
/// and is behind: it is cut off as lost.
pub open spec fn mate_pruned(s: GameState, a: int, b: int, cd: int) -> bool {
    &&& !(b > 1 + a)
    &&& cd > 2
    &&& if s.ply % 2 == 0 {
        skip_bit(s.skipped, 0) && skip_bit(s.skipped, 2) && game_result_spec(s) < 0
    } else {
        skip_bit(s.skipped, 1) && skip_bit(s.skipped, 3) && game_result_spec(s) > 0
    }
}

/// The lower window bound after the first `j` moves were valued `vals`: the highest of `a` and
/// those values.
pub open spec fn alpha_after(a: int, vals: Seq<int>, j: int) -> int
    decreases j,
{
    if j <= 0 {
        a
    } else {
        max_int(alpha_after(a, vals, j - 1), vals[j - 1])
    }
}

/// Always true: a term naming the sequences of a recorded search, for the solver to match the
/// existential of `searched` on.
#[verifier::opaque]
pub open spec fn trace_trigger(
    acts: Seq<Action>,
    vals: Seq<int>,
    cs: Seq<Seq<EvaluationCacheEntry>>,
    kids: Seq<GameState>,
    firsts: Seq<int>,
    mids: Seq<Seq<EvaluationCacheEntry>>,
    kids2: Seq<GameState>,
    seconds: Seq<int>,
    pres: Seq<GameState>,
) -> bool {
    true
}

/// What the search of position `s` with window (`a`, `b`) at depth `cd`, `dl` moves deep,
/// returns when the clock does not stop it: `r` is its value and the evaluation cache goes
/// from slots `c0` to slots `c1`. A leaf (no depth left, or the game over) has `leaf_val`; a
/// cut-off lost node has the negated mate score; otherwise some possible moves `acts` are
/// searched in turn, each child first with the full window (the first move) or with a null
/// window and, when that beats the bound, again with the full window, on the position the
/// first search left, each move made on the position as the searches before it left it (its skip
/// record may have lost bits); the value of a move is the negated value of its last search, the search
/// stops after a move whose value reaches `b`, and `r` is the highest of `a` and the values.
pub open spec fn searched(
    c0: Seq<EvaluationCacheEntry>,
    c1: Seq<EvaluationCacheEntry>,
    n: usize,
    s: GameState,
    a: int,
    b: int,
    cd: int,
    dl: nat,
    r: int,
) -> bool
    decreases dl, 0nat,
{
    if dl == 0 || game_over(s) {
        r == leaf_val(c0, n, s) && c1 == after_leaf(c0, n, s)
    } else if mate_pruned(s, a, b, cd) {
        r == -32000 && c1 == c0
    } else {
        exists|
            acts: Seq<Action>,
            vals: Seq<int>,
            cs: Seq<Seq<EvaluationCacheEntry>>,
            kids: Seq<GameState>,
            firsts: Seq<int>,
            mids: Seq<Seq<EvaluationCacheEntry>>,
            kids2: Seq<GameState>,
            seconds: Seq<int>,
            pres: Seq<GameState>,
        |
            #[trigger] trace_trigger(acts, vals, cs, kids, firsts, mids, kids2, seconds, pres) && acts.len() >= 1
                && cs[0] == c0 && vals.len() == acts.len() && cs.len() == acts.len() + 1 && kids.len() == acts.len()
                && firsts.len() == acts.len() && mids.len() == acts.len() && kids2.len() == acts.len()
                && seconds.len() == acts.len() && pres.len() == acts.len() && cs[acts.len() as int] == c1
                && r == alpha_after(a, vals, acts.len() as int)
                && (forall|j: int| 0 <= j < acts.len() - 1 ==> #[trigger] alpha_after(a, vals, j + 1) < b)
                && (r < b ==> all_searched(s, acts))
                && steps_ok(s, n, a, b, cd, (dl - 1) as nat, acts, vals, cs, kids, firsts, mids, kids2, seconds, pres, acts.len())
    }
}

/// A search as in `searched` whose line starts with `line`: none for a leaf or a cut-off node,
/// else the first of the moves of highest value, when that value is above the lowest score.
pub open spec fn searched_with(
    c0: Seq<EvaluationCacheEntry>,
    c1: Seq<EvaluationCacheEntry>,
    n: usize,
    s: GameState,
    a: int,
    b: int,
    cd: int,
    dl: nat,
    r: int,
    line: Option<Action>,
) -> bool {
    if dl == 0 || game_over(s) {
        r == leaf_val(c0, n, s) && c1 == after_leaf(c0, n, s) && line is None
    } else if mate_pruned(s, a, b, cd) {
        r == -32000 && c1 == c0 && line is None
    } else {
        exists|
            acts: Seq<Action>,
            vals: Seq<int>,
            cs: Seq<Seq<EvaluationCacheEntry>>,
            kids: Seq<GameState>,
            firsts: Seq<int>,
            mids: Seq<Seq<EvaluationCacheEntry>>,
            kids2: Seq<GameState>,
            seconds: Seq<int>,
            pres: Seq<GameState>,
        |
            #[trigger] trace_trigger(acts, vals, cs, kids, firsts, mids, kids2, seconds, pres) && acts.len() >= 1
                && cs[0] == c0 && vals.len() == acts.len() && cs.len() == acts.len() + 1 && kids.len() == acts.len()
                && firsts.len() == acts.len() && mids.len() == acts.len() && kids2.len() == acts.len()
                && seconds.len() == acts.len() && pres.len() == acts.len() && cs[acts.len() as int] == c1
                && r == alpha_after(a, vals, acts.len() as int)
                && (forall|j: int| 0 <= j < acts.len() - 1 ==> #[trigger] alpha_after(a, vals, j + 1) < b)
                && (r < b ==> all_searched(s, acts))
                && line == best_line(acts, vals, acts.len() as int)
                && steps_ok(s, n, a, b, cd, (dl - 1) as nat, acts, vals, cs, kids, firsts, mids, kids2, seconds, pres, acts.len())
    }
}

/// The highest of the lowest score and the first `m` values.
pub open spec fn best_val(vals: Seq<int>, m: int) -> int
    decreases m,
{
    if m <= 0 {
        -32767
    } else {
        max_int(best_val(vals, m - 1), vals[m - 1])
    }
}

/// The first move whose value is the highest of the first `m` and above the lowest score.
pub open spec fn best_line(acts: Seq<Action>, vals: Seq<int>, m: int) -> Option<Action>
    decreases m,
{
    if m <= 0 {
        None
    } else if vals[m - 1] > best_val(vals, m - 1) {
        Some(acts[m - 1])
    } else {
        best_line(acts, vals, m - 1)
    }
}

/// The first action of a line, if it has one.
pub open spec fn line_of(l: Seq<Action>) -> Option<Action> {
    if l.len() > 0 {
        Some(l[0])
    } else {
        None
    }
}

proof fn lemma_best_push(acts: Seq<Action>, vals: Seq<int>, y: Action, x: int, j: int)
    requires
        0 <= j <= vals.len(),
        acts.len() == vals.len(),
    ensures
        best_val(vals.push(x), j) == best_val(vals, j),
        best_line(acts.push(y), vals.push(x), j) == best_line(acts, vals, j),
    decreases j,
{
    if j > 0 {
        lemma_best_push(acts, vals, y, x, j - 1);
        assert(vals.push(x)[j - 1] == vals[j - 1]);
        assert(acts.push(y)[j - 1] == acts[j - 1]);
    }
}

/// The first `j` moves of a recorded search of position `s` (see `searched`): each possible,
/// made on a position as the searches before it left it (the first on `s` itself), and searched `d` moves deep first
/// with the full window (the first move) or with a null window and, when that beats the bound,
/// again with the full window; the value of a move is the negated value of its last search.
pub open spec fn steps_ok(
    s: GameState,
    n: usize,
    a: int,
    b: int,
    cd: int,
    d: nat,
    acts: Seq<Action>,
    vals: Seq<int>,
    cs: Seq<Seq<EvaluationCacheEntry>>,
    kids: Seq<GameState>,
    firsts: Seq<int>,
    mids: Seq<Seq<EvaluationCacheEntry>>,
    kids2: Seq<GameState>,
    seconds: Seq<int>,
    pres: Seq<GameState>,
    j: nat,
) -> bool
    decreases d, j,
{
    if j == 0 {
        true
    } else {
        let k = j - 1;
        let al = alpha_after(a, vals, k);
        &&& steps_ok(s, n, a, b, cd, d, acts, vals, cs, kids, firsts, mids, kids2, seconds, pres, (j - 1) as nat)
        &&& possible_action(s, acts[k])
        &&& same_position(pres[k], s)
        &&& pres[k].skipped & !s.skipped == 0
        &&& action_done(pres[k], kids[k], acts[k])
        &&& if k == 0 {
            &&& pres[0] == s
            &&& searched(cs[0], cs[1], n, kids[0], -b, -al, cd + 1, d, firsts[0])
            &&& vals[0] == -firsts[0]
        } else {
            &&& searched(cs[k], mids[k], n, kids[k], -al - 1, -al, cd + 1, d, firsts[k])
            &&& same_position(kids2[k], kids[k])
            &&& kids2[k].skipped & !kids[k].skipped == 0
            &&& if -firsts[k] > al {
                searched(mids[k], cs[k + 1], n, kids2[k], -b, -al, cd + 1, d, seconds[k]) && vals[k] == -seconds[k]
            } else {
                vals[k] == -firsts[k] && cs[k + 1] == mids[k]
            }
        }
    }
}

pub open spec fn max_int(a: int, b: int) -> int {
    if a >= b {
        a
    } else {
        b
    }
}

pub open spec fn min_int(a: int, b: int) -> int {
    if a <= b {
        a
    } else {
        b
    }
}

/// The color to move has not skipped and has a legal move, so move generation offers no skip.
pub open spec fn has_moves(s: GameState) -> bool {
    !skip_bit(s.skipped, (s.ply % 4) as int) && exists|d: int, sh: int| crate::gamestate::legal_move(s, d, sh)
}

/// A position that agrees with `s` and whose skip record holds no more bits has the moves of `s`.
proof fn lemma_has_moves_kept(s: GameState, t: GameState)
    requires
        same_position(s, t),
        t.skipped & !s.skipped == 0,
        has_moves(s),
    ensures
        has_moves(t),
{
    let c = (s.ply % 4) as u64;
    let (x, y) = (t.skipped, s.skipped);
    assert(((x >> c) & 1u64 == 1u64) ==> ((y >> c) & 1u64 == 1u64)) by (bit_vector)
        requires x & !y == 0u64, c < 4;
    let (d, sh) = choose|d: int, sh: int| crate::gamestate::legal_move(s, d, sh);
    lemma_same_moves(s, t, Action((d * 128 + sh) as u16));
    let cc = (s.ply % 4) as int;
    assert((|i: int| crate::gamestate::legal_field(s, cc, i)) =~= (|i: int| crate::gamestate::legal_field(t, cc, i)));
    assert((|i: int| crate::gamestate::placement_field(s, cc, i)) =~= (|i: int| crate::gamestate::placement_field(t, cc, i)));
    assert(crate::gamestate::legal_move(t, d, sh));
}

/// Every move that move generation offers in `s` is among `acts`.
pub open spec fn all_searched(s: GameState, acts: Seq<Action>) -> bool {
    exists|full: Seq<Action>| #[trigger] possible_actions(s, full) && forall|q: Action| full.contains(q) ==> acts.contains(q)
}

proof fn lemma_all_searched(s: GameState, gen: Seq<Action>, list: Seq<Action>, acts: Seq<Action>)
    requires
        possible_actions(s, gen),
        forall|q: Action| gen.contains(q) ==> #[trigger] list.contains(q),
        acts.len() == list.len(),
        forall|j: int| 0 <= j < acts.len() ==> #[trigger] acts[j] == list[j],
    ensures
        all_searched(s, acts),
{
    assert(acts =~= list);
    assert forall|q: Action| gen.contains(q) implies acts.contains(q) by {
        assert(list.contains(q));
    }
}

proof fn lemma_swap_contains(v: Seq<Action>, x: int, y: int, q: Action)
    requires
        0 <= x < v.len(),
        0 <= y < v.len(),
        v.contains(q),
    ensures
        v.update(x, v[y]).update(y, v[x]).contains(q),
{
    let w = v.update(x, v[y]).update(y, v[x]);
    let m = choose|m: int| 0 <= m < v.len() && v[m] == q;
    if m == x {
        assert(w[y] == q);
    } else if m == y {
        if x == y {
            assert(w[y] == q);
        } else {
            assert(w[x] == q);
        }
    } else {
        assert(w[m] == q);
    }
}

/// The node counter went from `a` to `b` in `steps` counted nodes (modulo 2^64), and the clock
/// stopped the search only when the counter passed a multiple of 4096 on the way; a stopped search
/// stays stopped.
pub open spec fn counted(a: u64, stop_a: bool, b: u64, stop_b: bool, steps: nat) -> bool {
    &&& steps >= 1
    &&& b as int == (a + steps) % 0x1_0000_0000_0000_0000
    &&& stop_a ==> stop_b
    &&& !stop_a && stop_b ==> crossed(a, steps)
}

/// Counting `steps` nodes from `a` passes a multiple of 4096.
pub open spec fn crossed(a: u64, steps: nat) -> bool {
    exists|k: int| a < k <= a + steps && #[trigger] (k % 4096) == 0
}

/// At most one node for the position and two for each move that move generation offers.
pub open spec fn few_steps(s: GameState, steps: nat) -> bool {
    exists|acts: Seq<Action>| #[trigger] possible_actions(s, acts) && steps <= 1 + 2 * acts.len()
}

proof fn lemma_counted_compose(a: u64, sa: bool, b: u64, sb: bool, c: u64, sc: bool, s1: nat, s2: nat)
    requires
        counted(a, sa, b, sb, s1),
        counted(b, sb, c, sc, s2),
    ensures
        counted(a, sa, c, sc, s1 + s2),
{
    let m = 0x1_0000_0000_0000_0000int;
    assert((a + s1 + s2) % m == ((a + s1) % m + s2) % m) by (nonlinear_arith)
        requires m == 0x1_0000_0000_0000_0000int, a >= 0, s1 >= 0, s2 >= 0;
    if !sa && sc {
        if !sb {
            let k = choose|k: int| b < k <= b + s2 && #[trigger] (k % 4096) == 0;
            let q = (a + s1) / m;
            assert(a + s1 == q * m + b) by (nonlinear_arith)
                requires m == 0x1_0000_0000_0000_0000int, b == (a + s1) % m, q == (a + s1) / m, a + s1 >= 0;
            let k2 = k + q * m;
            assert(k2 % 4096 == 0) by (nonlinear_arith)
                requires k % 4096 == 0, m == 0x1_0000_0000_0000_0000int, k2 == k + q * m;
            assert(q >= 0) by (nonlinear_arith)
                requires q == (a + s1) / m, a + s1 >= 0, m > 0;
            assert(a + s1 < k2) by (nonlinear_arith)
                requires a + s1 == q * m + b, b < k, k2 == k + q * m;
            assert((k2 % 4096) == 0);
        } else {
            let k = choose|k: int| a < k <= a + s1 && #[trigger] (k % 4096) == 0;
            assert((k % 4096) == 0);
        }
    }
}

/// A child search's counted nodes add to those counted so far.
proof fn lemma_child_steps(
    a: u64, sa: bool, b: u64, sb: bool, c: u64, sc: bool, s1: nat, child_dl: nat, child_state: GameState,
) -> (s2: nat)
    requires
        counted(a, sa, b, sb, s1),
        exists|steps: nat|
            #[trigger] counted(b, sb, c, sc, steps) && ((child_dl == 0 || game_over(child_state)) ==> steps
                == 1) && (child_dl == 1 ==> steps == 1 || few_steps(child_state, steps)),
    ensures
        s2 >= 1,
        counted(a, sa, c, sc, s1 + s2),
        child_dl == 0 ==> s2 == 1,
{
    let s2 = choose|steps: nat|
        #[trigger] counted(b, sb, c, sc, steps) && ((child_dl == 0 || game_over(child_state)) ==> steps == 1)
            && (child_dl == 1 ==> steps == 1 || few_steps(child_state, steps));
    lemma_counted_compose(a, sa, b, sb, c, sc, s1, s2);
    s2
}

/// A search one move deep from a counter of zero cannot be stopped by the clock when move
/// generation offers at most 2047 moves: it counts at most 4095 nodes.
proof fn lemma_first_depth_runs(s: GameState, a: u64, sa: bool, b: u64, sb: bool)
    requires
        a == 0,
        !sa,
        forall|acts: Seq<Action>| #[trigger] possible_actions(s, acts) ==> acts.len() <= 2047,
        exists|steps: nat|
            #[trigger] counted(a, sa, b, sb, steps) && ((1nat == 0 || game_over(s)) ==> steps == 1) && (1nat
                == 1 ==> steps == 1 || few_steps(s, steps)),
    ensures
        !sb,
{
    let st = choose|steps: nat|
        #[trigger] counted(a, sa, b, sb, steps) && ((1nat == 0 || game_over(s)) ==> steps == 1) && (1nat == 1
            ==> steps == 1 || few_steps(s, steps));
    if st != 1 {
        let acts = choose|acts: Seq<Action>| #[trigger] possible_actions(s, acts) && st <= 1 + 2 * acts.len();
        assert(acts.len() <= 2047);
    }
    assert(st <= 4095);
    if sb {
        let k = choose|k: int| a < k <= a + st && #[trigger] (k % 4096) == 0;
        assert(false);
    }
}

/// One counted node: the counter moved by one and the clock was read only at a multiple of 4096.
proof fn lemma_counted_one(a: u64, b: u64, sa: bool, sb: bool)
    requires
        b as int == (a + 1) % 0x1_0000_0000_0000_0000,
        sa ==> sb,
        !sa && sb ==> b % 4096 == 0,
    ensures
        counted(a, sa, b, sb, 1),
{
    if !sa && sb {
        let m = 0x1_0000_0000_0000_0000int;
        let k = a + 1;
        assert(k % 4096 == 0) by (nonlinear_arith)
            requires m == 0x1_0000_0000_0000_0000int, b == k % m, b % 4096 == 0, k >= 0;
        assert((k % 4096) == 0);
    }
}

/// The skip record of a position has room for `dl` more nested skips: its highest `4 * dl`
/// bits are clear (and `dl` is below 16).
pub open spec fn skip_room(x: u64, dl: nat) -> bool {
    dl == 0 || (dl < 16 && (x >> ((64 - 4 * dl) as u64)) == 0u64)
}

proof fn lemma_skip_room_step(x: u64, k: u64, c: u64)
    by (bit_vector)
    requires
        4 <= k <= 60,
        c < 4,
        x >> k == 0u64,
    ensures
        ((x << 4u64) | (x & 15u64) | (1u64 << c)) >> (k + 4u64) == 0u64,
        x >> (k + 4u64) == 0u64,
        x < 0x1000000000000000u64,
{
}

/// A skip record with room for `dl` nested skips has room for `dl - 1` after a move.
proof fn lemma_skip_room(x: u64, dl: nat, c: u64)
    requires
        skip_room(x, dl),
        dl > 0,
        c < 4,
    ensures
        skip_room((x << 4u64) | (x & 15u64) | (1u64 << c), (dl - 1) as nat),
        skip_room(x, (dl - 1) as nat),
        x < 0x1000000000000000u64,
{
    let k = (64 - 4 * dl) as u64;
    lemma_skip_room_step(x, k, c);
    assert((k + 4u64) as int == 64 - 4 * (dl - 1));
}

/// The skip record only loses bits when the search takes its actions back.
proof fn lemma_skip_record(x: u64, t: u64, t2: u64, c: u64)
    by (bit_vector)
    requires
        c < 4,
        t == (x << 4u64) | (x & 15u64) | (1u64 << c),
        t2 & !t == 0,
    ensures
        (t2 >> 4u64) & !x == 0,
{
}

proof fn lemma_subset_game(a: u64, b: u64, c: u64)
    by (bit_vector)
    requires
        a & !b == 0,
        b & !c == 0,
    ensures
        a & !c == 0,
        (c & 15u64) != 15u64 ==> (a & 15u64) != 15u64,
{
}

proof fn lemma_subset_self(a: u64)
    by (bit_vector)
    ensures
        a & !a == 0,
{
}

/// The value of a position where the search stops, read from or stored in the evaluation cache.
fn evaluate_leaf(searcher: &mut Searcher, state: &GameState) -> (r: i16)
    requires
        searcher_ok(*old(searcher)),
        boards_sane(*state),
    ensures
        searcher_ok(*final(searcher)),
        r == leaf_value(old(searcher).evaluation_cache, *state),
        -32440 <= r <= 32440,
        final(searcher).pv_table == old(searcher).pv_table,
        final(searcher).principal_variation == old(searcher).principal_variation,
        final(searcher).stop == old(searcher).stop,
        final(searcher).nodes_searched == old(searcher).nodes_searched,
        final(searcher).start_time == old(searcher).start_time,
        final(searcher).time_limit == old(searcher).time_limit,
        final(searcher).action_list_stack == old(searcher).action_list_stack,
        final(searcher).evaluation_cache.entries == old(searcher).evaluation_cache.entries,
        final(searcher).evaluation_cache.cache@ == after_leaf(
            old(searcher).evaluation_cache.cache@,
            old(searcher).evaluation_cache.entries,
            *state,
        ),
{
    proof {
        crate::evaluation::lemma_sane_evaluation_defined(*state);
    }
    let entry = searcher.evaluation_cache.lookup(state.hash);
    if entry.hash == state.hash && entry.score != -32768 {
        return entry.score;
    }
    let score = static_evaluation(state);
    proof {
        lemma_evaluation_range(*state);
    }
    searcher.evaluation_cache.insert(state.hash, score);
    proof {
        let c = searcher.evaluation_cache.cache@;
        assert forall|k: int| 0 <= k < c.len() implies score_ok(#[trigger] c[k].score) by {
            if k != slot(state.hash, searcher.evaluation_cache.entries) {
                assert(c[k] == old(searcher).evaluation_cache.cache@[k]);
            }
        }
    }
    score
}



/// Recorded moves stay recorded when the next move is added to the record.
proof fn lemma_steps_push(
    s: GameState,
    n: usize,
    a: int,
    b: int,
    cd: int,
    d: nat,
    acts: Seq<Action>,
    vals: Seq<int>,
    cs: Seq<Seq<EvaluationCacheEntry>>,
    kids: Seq<GameState>,
    firsts: Seq<int>,
    mids: Seq<Seq<EvaluationCacheEntry>>,
    kids2: Seq<GameState>,
    seconds: Seq<int>,
    pres: Seq<GameState>,
    x: (Action, int, Seq<EvaluationCacheEntry>, GameState, int, Seq<EvaluationCacheEntry>, GameState, int, GameState),
    j: nat,
)
    requires
        j <= acts.len(),
        vals.len() == acts.len() && cs.len() == acts.len() + 1 && kids.len() == acts.len(),
        firsts.len() == acts.len() && mids.len() == acts.len() && kids2.len() == acts.len(),
        seconds.len() == acts.len() && pres.len() == acts.len(),
        steps_ok(s, n, a, b, cd, d, acts, vals, cs, kids, firsts, mids, kids2, seconds, pres, j),
    ensures
        steps_ok(
            s,
            n,
            a,
            b,
            cd,
            d,
            acts.push(x.0),
            vals.push(x.1),
            cs.push(x.2),
            kids.push(x.3),
            firsts.push(x.4),
            mids.push(x.5),
            kids2.push(x.6),
            seconds.push(x.7),
            pres.push(x.8),
            j,
        ),
    decreases j,
{
    if j > 0 {
        lemma_steps_push(s, n, a, b, cd, d, acts, vals, cs, kids, firsts, mids, kids2, seconds, pres, x, (j - 1) as nat);
        let k = j - 1;
        lemma_alpha_after_prefix(a, vals, x.1, k);
        assert(cs.push(x.2)[k + 1] == cs[k + 1]);
        assert(cs.push(x.2)[k] == cs[k]);
        assert(cs.push(x.2)[0] == cs[0]);
        assert(cs.push(x.2)[1] == cs[1]);
        assert(pres.push(x.8)[0] == pres[0]);
    }
}

/// A record of searched moves, stopped only at the last move reaching `b`, is a search of the
/// position (see `searched`).
proof fn lemma_steps_searched(
    c0: Seq<EvaluationCacheEntry>,
    c1: Seq<EvaluationCacheEntry>,
    n: usize,
    s: GameState,
    a: int,
    b: int,
    cd: int,
    dl: nat,
    r: int,
    acts: Seq<Action>,
    vals: Seq<int>,
    cs: Seq<Seq<EvaluationCacheEntry>>,
    kids: Seq<GameState>,
    firsts: Seq<int>,
    mids: Seq<Seq<EvaluationCacheEntry>>,
    kids2: Seq<GameState>,
    seconds: Seq<int>,
    pres: Seq<GameState>,
)
    requires
        dl > 0,
        !game_over(s),
        !mate_pruned(s, a, b, cd),
        acts.len() >= 1,
        vals.len() == acts.len() && cs.len() == acts.len() + 1 && kids.len() == acts.len(),
        firsts.len() == acts.len() && mids.len() == acts.len() && kids2.len() == acts.len(),
        seconds.len() == acts.len() && pres.len() == acts.len(),
        cs[0] == c0,
        cs[acts.len() as int] == c1,
        r == alpha_after(a, vals, acts.len() as int),
        forall|j: int| 0 <= j < acts.len() - 1 ==> #[trigger] alpha_after(a, vals, j + 1) < b,
        r < b ==> all_searched(s, acts),
        steps_ok(s, n, a, b, cd, (dl - 1) as nat, acts, vals, cs, kids, firsts, mids, kids2, seconds, pres, acts.len()),
    ensures
        searched(c0, c1, n, s, a, b, cd, dl, r),
{
    assert(trace_trigger(acts, vals, cs, kids, firsts, mids, kids2, seconds, pres)) by {
        reveal(trace_trigger);
    }
}

proof fn lemma_steps_searched_with(
    c0: Seq<EvaluationCacheEntry>,
    c1: Seq<EvaluationCacheEntry>,
    n: usize,
    s: GameState,
    a: int,
    b: int,
    cd: int,
    dl: nat,
    r: int,
    line: Option<Action>,
    acts: Seq<Action>,
    vals: Seq<int>,
    cs: Seq<Seq<EvaluationCacheEntry>>,
    kids: Seq<GameState>,
    firsts: Seq<int>,
    mids: Seq<Seq<EvaluationCacheEntry>>,
    kids2: Seq<GameState>,
    seconds: Seq<int>,
    pres: Seq<GameState>,
)
    requires
        dl > 0,
        !game_over(s),
        !mate_pruned(s, a, b, cd),
        acts.len() >= 1,
        vals.len() == acts.len() && cs.len() == acts.len() + 1 && kids.len() == acts.len(),
        firsts.len() == acts.len() && mids.len() == acts.len() && kids2.len() == acts.len(),
        seconds.len() == acts.len() && pres.len() == acts.len(),
        cs[0] == c0,
        cs[acts.len() as int] == c1,
        r == alpha_after(a, vals, acts.len() as int),
        forall|j: int| 0 <= j < acts.len() - 1 ==> #[trigger] alpha_after(a, vals, j + 1) < b,
        r < b ==> all_searched(s, acts),
        line == best_line(acts, vals, acts.len() as int),
        steps_ok(s, n, a, b, cd, (dl - 1) as nat, acts, vals, cs, kids, firsts, mids, kids2, seconds, pres, acts.len()),
    ensures
        searched_with(c0, c1, n, s, a, b, cd, dl, r, line),
{
    assert(trace_trigger(acts, vals, cs, kids, firsts, mids, kids2, seconds, pres)) by {
        reveal(trace_trigger);
    }
}

/// The bound after the first `j` values does not change when values are added after them.
proof fn lemma_alpha_after_push(a: int, vals: Seq<int>, x: int)
    ensures
        forall|j: int| 0 <= j <= vals.len() ==> #[trigger] alpha_after(a, vals.push(x), j) == alpha_after(a, vals, j),
        alpha_after(a, vals.push(x), vals.len() as int + 1) == max_int(alpha_after(a, vals, vals.len() as int), x),
{
    assert forall|j: int| 0 <= j <= vals.len() implies #[trigger] alpha_after(a, vals.push(x), j) == alpha_after(a, vals, j) by {
        lemma_alpha_after_prefix(a, vals, x, j);
    }
    lemma_alpha_after_prefix(a, vals, x, vals.len() as int);
    assert(vals.push(x)[vals.len() as int] == x);
}

proof fn lemma_alpha_after_prefix(a: int, vals: Seq<int>, x: int, j: int)
    requires
        0 <= j <= vals.len(),
    ensures
        alpha_after(a, vals.push(x), j) == alpha_after(a, vals, j),
    decreases j,
{
    if j > 0 {
        lemma_alpha_after_prefix(a, vals, x, j - 1);
        assert(vals.push(x)[j - 1] == vals[j - 1]);
    }
}

/// The bound after some values is never below the starting bound.
proof fn lemma_alpha_after_at_least(a: int, vals: Seq<int>, j: int)
    ensures
        alpha_after(a, vals, j) >= a,
    decreases j,
{
    if j > 0 {
        lemma_alpha_after_at_least(a, vals, j - 1);
    }
}

/// The team to move has skipped with both of its colors and the game result is against it:
/// below zero for blue and red, above zero for yellow and green.
pub open spec fn team_out_and_behind(s: GameState) -> bool {
    if s.ply % 2 == 0 {
        skip_bit(s.skipped, 0) && skip_bit(s.skipped, 2) && game_result_spec(s) < 0
    } else {
        skip_bit(s.skipped, 1) && skip_bit(s.skipped, 3) && game_result_spec(s) > 0
    }
}

/// A searched node that is no leaf returns less than the lower bound of its window only when
/// it is cut off as lost: then the value is the negated mate score, the node is searched with
/// a null window below the second level, and the team to move has skipped with both colors and
/// is behind. A team that is ahead, or can still move, is never
/// cut off. A team that is out and behind is cut off in every null-window search below the
/// second level.
pub proof fn lemma_lost_cut_off(
    c0: Seq<EvaluationCacheEntry>,
    c1: Seq<EvaluationCacheEntry>,
    n: usize,
    s: GameState,
    a: int,
    b: int,
    cd: int,
    dl: nat,
    r: int,
)
    requires
        searched(c0, c1, n, s, a, b, cd, dl, r),
        dl > 0,
        !game_over(s),
    ensures
        r < a ==> team_out_and_behind(s) && r == -MATE_SCORE && b <= a + 1 && cd > 2,
        !team_out_and_behind(s) ==> r >= a,
        team_out_and_behind(s) && b <= a + 1 && cd > 2 ==> r == -MATE_SCORE,
{
    assert forall|vals: Seq<int>, j: int| #[trigger] alpha_after(a, vals, j) >= a by {
        lemma_alpha_after_at_least(a, vals, j);
    }
}

/// Appends the actions of list `from` of the table to list `to`.
fn append_variation(table: &mut ActionListStack, to: usize, from: usize)
    requires
        to < old(table).action_lists@.len(),
        from < old(table).action_lists@.len(),
        to != from,
    ensures
        final(table).action_lists@.len() == old(table).action_lists@.len(),
        forall|k: int| 0 <= k < old(table).action_lists@.len() && k != to ==> #[trigger] final(table).action_lists@[k] == old(table).action_lists@[k],
        final(table).action_lists@[to as int]@ == old(table).action_lists@[to as int]@ + old(table).action_lists@[from as int]@,
{
    let m = table.action_lists[from].size();
    let ghost start = table.action_lists@[to as int]@;
    let ghost source = table.action_lists@[from as int]@;
    let mut i: usize = 0;
    while i < m
        invariant
            i <= m,
            to < table.action_lists@.len(),
            from < table.action_lists@.len(),
            to != from,
            m == source.len(),
            table.action_lists@.len() == old(table).action_lists@.len(),
            forall|k: int| 0 <= k < old(table).action_lists@.len() && k != to ==> #[trigger] table.action_lists@[k] == old(table).action_lists@[k],
            source == old(table).action_lists@[from as int]@,
            start == old(table).action_lists@[to as int]@,
            table.action_lists@[to as int]@ == start + source.subrange(0, i as int),
        decreases m - i,
    {
        let a = table.action_lists[from].get(i);
        table.action_lists[to].push(a);
        proof {
            assert(source.subrange(0, i + 1) =~= source.subrange(0, i as int).push(a));
        }
        i = i + 1;
    }
    proof {
        assert(source.subrange(0, m as int) =~= source);
    }
}

/// Searches the position to `depth_left` more moves within the window (`alpha`, `beta`) and
/// returns its score for the color to move. Positions at the end of the depth, of a finished
/// game or after time ran out get their cached or computed evaluation; the moves of a position
/// are searched in order, the first with the full window and the others with a null window
/// first; the best line is kept in the principal variation table at `current_depth`.
#[verifier::spinoff_prover]
#[verifier::rlimit(100)]
pub fn principal_variation_search(
    searcher: &mut Searcher,
    state: &mut GameState,
    alpha: i16,
    beta: i16,
    current_depth: usize,
    depth_left: usize,
) -> (r: i16)
    requires
        searcher_ok(*old(searcher)),
        boards_sane(*old(state)),
        -32767 <= alpha < beta <= 32767,
        current_depth + depth_left < usize::MAX - 1,
    ensures
        searcher_ok(*final(searcher)),
        same_position(*final(state), *old(state)),
        final(state).skipped & !old(state).skipped == 0,
        -32767 <= r <= 32767,
        r <= max_int(alpha as int, 32440),
        r >= min_int(beta as int, -32440),
        (depth_left == 0 || game_over(*old(state))) ==> r == leaf_value(
            old(searcher).evaluation_cache,
            *old(state),
        ),
        final(searcher).pv_table.action_lists@.len() > current_depth,
        final(searcher).pv_table.action_lists@.len() >= old(searcher).pv_table.action_lists@.len(),
        forall|k: int|
            0 <= k < current_depth && k < old(searcher).pv_table.action_lists@.len() ==> #[trigger] final(searcher).pv_table.action_lists@[k] == old(searcher).pv_table.action_lists@[k],
        final(searcher).pv_table.action_lists@[current_depth as int]@.len() > 0 ==> possible_action(
            *old(state),
            final(searcher).pv_table.action_lists@[current_depth as int]@[0],
        ),
        final(searcher).pv_table.action_lists@[current_depth as int]@.len() > 0 && has_moves(*old(state))
            ==> !final(searcher).pv_table.action_lists@[current_depth as int]@[0].is_skip_spec(),
        depth_left > 0 && !game_over(*old(state)) && current_depth <= 2 && beta > -32767
            && !final(searcher).stop ==> final(searcher).pv_table.action_lists@[current_depth as int]@.len() > 0,
        final(searcher).principal_variation == old(searcher).principal_variation,
        final(searcher).start_time == old(searcher).start_time,
        final(searcher).time_limit == old(searcher).time_limit,
        final(searcher).action_list_stack.action_lists@.len() >= old(searcher).action_list_stack.action_lists@.len(),
        final(searcher).evaluation_cache.entries == old(searcher).evaluation_cache.entries,
        old(searcher).stop ==> final(searcher).stop,
        skip_room(old(state).skipped, depth_left as nat) ==> final(state).skipped == old(state).skipped,
        exists|steps: nat|
            #[trigger] counted(
                old(searcher).nodes_searched,
                old(searcher).stop,
                final(searcher).nodes_searched,
                final(searcher).stop,
                steps,
            ) && ((depth_left == 0 || game_over(*old(state))) ==> steps == 1) && (depth_left == 1 ==> steps
                == 1 || few_steps(*old(state), steps)),
        !final(searcher).stop ==> searched_with(
            old(searcher).evaluation_cache.cache@,
            final(searcher).evaluation_cache.cache@,
            old(searcher).evaluation_cache.entries,
            *old(state),
            alpha as int,
            beta as int,
            current_depth as int,
            depth_left as nat,
            r as int,
            line_of(final(searcher).pv_table.action_lists@[current_depth as int]@),
        ),
        !final(searcher).stop ==> searched(
            old(searcher).evaluation_cache.cache@,
            final(searcher).evaluation_cache.cache@,
            old(searcher).evaluation_cache.entries,
            *old(state),
            alpha as int,
            beta as int,
            current_depth as int,
            depth_left as nat,
            r as int,
        ),
    decreases depth_left,
{
    let ghost beta_in = beta;
    let ghost c_in = searcher.evaluation_cache.cache@;
    let ghost n_in = searcher.evaluation_cache.entries;
    let ghost n_old = searcher.nodes_searched;
    let ghost stop_old = searcher.stop;
    searcher.nodes_searched = searcher.nodes_searched.wrapping_add(1);
    let ghost mut steps_g: nat = 1;
    searcher.pv_table.reach(current_depth);
    searcher.pv_table.action_lists[current_depth].clear();
    let mut alpha = alpha;
    let mut beta = beta;
    let is_pv_node = beta > 1 + alpha;
    let original_alpha = alpha;
    let ghost s0 = *state;
    proof {
        lemma_subset_self(state.skipped);
    }
    if searcher.nodes_searched % 4096 == 0 {
        let spent = as_millis(&elapsed(&searcher.start_time));
        if spent >= searcher.time_limit {
            searcher.stop = true;
        }
    }
    proof {
        lemma_counted_one(n_old, searcher.nodes_searched, stop_old, searcher.stop);
    }
    if depth_left == 0 || searcher.stop || state.is_game_over() {
        let v = evaluate_leaf(searcher, state);
        proof {
            assert(counted(old(searcher).nodes_searched, old(searcher).stop, searcher.nodes_searched, searcher.stop, 1));
        }
        return v;
    }
    proof {
        let p = state.ply;
        assert((p & 1u8 == 0u8) == (p % 2 == 0)) by (bit_vector);
    }
    if !is_pv_node && current_depth > 2 {
        if state.ply & 1 == 0 {
            if state.has_team_skipped(0) && state.game_result() < 0 {
                proof {
                    assert(counted(old(searcher).nodes_searched, old(searcher).stop, searcher.nodes_searched, searcher.stop, 1));
                }
                return -MATE_SCORE;
            }
        } else if state.has_team_skipped(1) && state.game_result() > 0 {
            proof {
                assert(counted(old(searcher).nodes_searched, old(searcher).stop, searcher.nodes_searched, searcher.stop, 1));
            }
            return -MATE_SCORE;
        }
    }
    searcher.action_list_stack.reach(depth_left);
    let mut al = ActionList::default();
    std::mem::swap(&mut al, &mut searcher.action_list_stack.action_lists[depth_left]);
    state.get_possible_actions(&mut al);
    let n = al.size();
    let ghost gen = al@;
    proof {
        assert forall|k: int| 0 <= k < n && has_moves(s0) implies !(#[trigger] al@[k]).is_skip_spec() by {
            assert(crate::gamestate::legal_move(s0, al@[k].destination_spec(), al@[k].shape_spec()));
            assert(65535int % 128 == 127);
        }
        assert forall|k: int| 0 <= k < n implies possible_action(s0, #[trigger] al@[k]) by {
            if crate::gamestate::skip_bit(s0.skipped, (s0.ply % 4) as int) || !(exists|d: int, sh: int| crate::gamestate::legal_move(s0, d, sh)) {
                assert(al@ == seq![Action(crate::action::SKIP_CODE)]);
            }
        }
        if crate::gamestate::skip_bit(s0.skipped, (s0.ply % 4) as int) || !(exists|d: int, sh: int| crate::gamestate::legal_move(s0, d, sh)) {
            assert(al@ == seq![Action(crate::action::SKIP_CODE)]);
        }
    }
    let mut ordering_index: usize = 0;
    if searcher.principal_variation.size() > current_depth {
        let pv_action = searcher.principal_variation.get(current_depth);
        let mut i: usize = 0;
        while i < n
            invariant_except_break
                ordering_index == 0,
            invariant
                i <= n,
                n == al@.len(),
                n > 0,
                forall|k: int| 0 <= k < n ==> possible_action(s0, #[trigger] al@[k]),
                has_moves(s0) ==> forall|k: int| 0 <= k < n ==> !(#[trigger] al@[k]).is_skip_spec(),
                forall|q: Action| gen.contains(q) ==> #[trigger] al@.contains(q),
            ensures
                ordering_index <= 1,
            decreases n - i,
        {
            if pv_action == al.get(i) {
                let ghost before_swap = al@;
                al.swap(ordering_index, i);
                proof {
                    assert forall|q: Action| gen.contains(q) implies #[trigger] al@.contains(q) by {
                        lemma_swap_contains(before_swap, ordering_index as int, i as int, q);
                    }
                }
                ordering_index = ordering_index + 1;
                break;
            }
            i = i + 1;
        }
    }
    proof {
        searcher.transposition_table.lemma_wf();
    }
    let tt_entry = searcher.transposition_table.lookup(state.hash);
    proof {
        assert(searcher.transposition_table == old(searcher).transposition_table);
        let k = slot(state.hash, searcher.transposition_table.entries_spec());
        assert(0 <= k < searcher.transposition_table@.len());
        assert(tt_entry == empty_entry());
    }
    if !tt_entry.is_empty() && tt_entry.depth_left >= #[verifier::truncate] (depth_left as u8)
        && tt_entry.ply == state.ply && tt_entry.hash == state.hash {
        if !is_pv_node {
            if tt_entry.alpha && tt_entry.beta {
                return tt_entry.score;
            } else if tt_entry.alpha {
                alpha = tt_entry.score;
            } else if tt_entry.beta {
                beta = tt_entry.score;
            }
        }
        let tt_action = tt_entry.action;
        let mut i: usize = ordering_index;
        while i < n
            invariant
                n == al@.len(),
                tt_entry == empty_entry(),
                tt_entry.depth_left != 255,
            decreases n - i,
        {
            if tt_action == al.get(i) {
                al.swap(ordering_index, i);
                break;
            }
            i = i + 1;
        }
    }
    let mut best_score: i16 = -MAX_SCORE;
    let mut best_action_index: usize = 0;
    let mut index: usize = 0;
    let ghost searched_one = false;
    let ghost pv_before = searcher.pv_table.action_lists@;
    let ghost mut acts_g: Seq<Action> = Seq::empty();
    let ghost mut vals_g: Seq<int> = Seq::empty();
    let ghost mut cs_g: Seq<Seq<EvaluationCacheEntry>> = seq![c_in];
    let ghost mut kids_g: Seq<GameState> = Seq::empty();
    let ghost mut firsts_g: Seq<int> = Seq::empty();
    let ghost mut mids_g: Seq<Seq<EvaluationCacheEntry>> = Seq::empty();
    let ghost mut kids2_g: Seq<GameState> = Seq::empty();
    let ghost mut seconds_g: Seq<int> = Seq::empty();
    let ghost mut pres_g: Seq<GameState> = Seq::empty();
    while index < n
        invariant_except_break
            alpha < beta,
            acts_g.len() == index,
        invariant
            !stop_old,
            n_old == old(searcher).nodes_searched,
            stop_old == old(searcher).stop,
            counted(n_old, stop_old, searcher.nodes_searched, searcher.stop, steps_g),
            depth_left == 1 ==> steps_g <= 1 + 2 * acts_g.len(),
            best_score as int == best_val(vals_g, acts_g.len() as int),
            line_of(searcher.pv_table.action_lists@[current_depth as int]@) == best_line(acts_g, vals_g, acts_g.len() as int),
            acts_g.len() <= n,
            gen.len() == n,
            possible_actions(s0, gen),
            forall|q: Action| gen.contains(q) ==> #[trigger] al@.contains(q),
            forall|j: int| 0 <= j < acts_g.len() ==> #[trigger] acts_g[j] == al@[j],
            index <= acts_g.len(),
            acts_g.len() <= index + 1,
            vals_g.len() == acts_g.len() && cs_g.len() == acts_g.len() + 1 && kids_g.len() == acts_g.len(),
            firsts_g.len() == acts_g.len() && mids_g.len() == acts_g.len() && kids2_g.len() == acts_g.len(),
            seconds_g.len() == acts_g.len() && pres_g.len() == acts_g.len(),
            cs_g[0] == c_in,
            alpha as int == alpha_after(original_alpha as int, vals_g, acts_g.len() as int),
            best_score <= alpha,
            forall|j: int| 0 <= j < acts_g.len() - 1 ==> #[trigger] alpha_after(original_alpha as int, vals_g, j + 1) < beta_in,
            searcher.evaluation_cache.entries == n_in,
            !searcher.stop ==> cs_g[acts_g.len() as int] == searcher.evaluation_cache.cache@,
            acts_g.len() == 0 ==> *state == s0,
            !searcher.stop ==> steps_ok(s0, n_in, original_alpha as int, beta_in as int,
                current_depth as int, (depth_left - 1) as nat, acts_g, vals_g, cs_g, kids_g, firsts_g, mids_g,
                kids2_g, seconds_g, pres_g, acts_g.len()),
            searcher_ok(*searcher),
            n == al@.len(),
            n > 0,
            index <= n,
            forall|k: int| 0 <= k < n ==> possible_action(s0, #[trigger] al@[k]),
            same_position(*state, s0),
            state.skipped & !s0.skipped == 0,
            skip_room(s0.skipped, depth_left as nat) ==> state.skipped == s0.skipped,
            boards_sane(s0),
            !game_over(s0),
            0 < depth_left,
            current_depth + depth_left < usize::MAX - 1,
            -32767 <= original_alpha <= alpha <= 32767,
            beta == beta_in,
            -32767 <= beta <= 32767,
            alpha <= max_int(original_alpha as int, 32440),
            -32767 <= best_score <= 32767,
            best_action_index < n,
            is_pv_node == (beta > 1 + original_alpha),
            !searched_one ==> best_score == -32767,
            searched_one && beta > -32767 ==> alpha >= min_int(beta as int, -32440),
            searched_one && beta > -32767 ==> searcher.pv_table.action_lists@[current_depth as int]@.len() > 0,
            index > 0 ==> searched_one,
            searcher.pv_table.action_lists@.len() > current_depth,
            searcher.pv_table.action_lists@.len() >= pv_before.len(),
            pv_before.len() > current_depth,
            forall|k: int| 0 <= k < current_depth ==> #[trigger] searcher.pv_table.action_lists@[k] == pv_before[k],
            searcher.pv_table.action_lists@[current_depth as int]@.len() > 0 ==> possible_action(
                s0,
                searcher.pv_table.action_lists@[current_depth as int]@[0],
            ),
            searcher.principal_variation == old(searcher).principal_variation,
            searcher.start_time == old(searcher).start_time,
            searcher.time_limit == old(searcher).time_limit,
            has_moves(s0) ==> forall|k: int| 0 <= k < n ==> !(#[trigger] al@[k]).is_skip_spec(),
            has_moves(s0) && searcher.pv_table.action_lists@[current_depth as int]@.len() > 0
                ==> !searcher.pv_table.action_lists@[current_depth as int]@[0].is_skip_spec(),
            searcher.action_list_stack.action_lists@.len() > depth_left,
            searcher.action_list_stack.action_lists@.len() >= old(searcher).action_list_stack.action_lists@.len(),
        ensures
            searched_one,
            acts_g.len() >= 1,
            alpha < beta ==> acts_g.len() == n,
        decreases n - index,
    {
        let action = al.get(index);
        let ghost before = *state;
        proof {
            lemma_same_moves(s0, before, action);
        }
        state.do_action(action);
        let ghost after = *state;
        proof {
            lemma_possible_keeps_sane(before, after, action);
        }
        let ghost c_before = searcher.evaluation_cache.cache@;
        let ghost stop_before = searcher.stop;
        let ghost nodes_before = searcher.nodes_searched;
        let ghost mut first_g: int = 0;
        let ghost mut mid_g: Seq<EvaluationCacheEntry> = c_before;
        let ghost mut kid2_g: GameState = after;
        let ghost mut second_g: int = 0;
        let score: i16 = if index == 0 {
            let child = principal_variation_search(
                searcher,
                state,
                -beta,
                -alpha,
                current_depth + 1,
                depth_left - 1,
            );
            proof {
                first_g = child as int;
                mid_g = searcher.evaluation_cache.cache@;
                let s2 = lemma_child_steps(n_old, stop_old, nodes_before, stop_before, searcher.nodes_searched,
                    searcher.stop, steps_g, (depth_left - 1) as nat, after);
                steps_g = steps_g + s2;
            }
            -child
        } else {
            let child = principal_variation_search(
                searcher,
                state,
                -alpha - 1,
                -alpha,
                current_depth + 1,
                depth_left - 1,
            );
            proof {
                first_g = child as int;
                mid_g = searcher.evaluation_cache.cache@;
                kid2_g = *state;
                let s2 = lemma_child_steps(n_old, stop_old, nodes_before, stop_before, searcher.nodes_searched,
                    searcher.stop, steps_g, (depth_left - 1) as nat, after);
                steps_g = steps_g + s2;
            }
            let ghost nodes_mid = searcher.nodes_searched;
            let ghost stop_mid = searcher.stop;
            let mut score = -child;
            if score > alpha {
                proof {
                    lemma_same_moves(after, *state, action);
                }
                let ghost mid = *state;
                let again = principal_variation_search(
                    searcher,
                    state,
                    -beta,
                    -alpha,
                    current_depth + 1,
                    depth_left - 1,
                );
                proof {
                    lemma_subset_game(state.skipped, mid.skipped, after.skipped);
                    second_g = again as int;
                    let s3 = lemma_child_steps(n_old, stop_old, nodes_mid, stop_mid, searcher.nodes_searched,
                        searcher.stop, steps_g, (depth_left - 1) as nat, mid);
                    steps_g = steps_g + s3;
                }
                score = -again;
            }
            score
        };
        let ghost t2 = *state;
        state.undo_action(action);
        proof {
            if skip_room(s0.skipped, depth_left as nat) {
                lemma_skip_room(s0.skipped, depth_left as nat, (before.ply % 4) as u64);
                crate::gamestate::lemma_skip_bits(s0.skipped, (before.ply % 4) as u64, before.ply);
            }
            lemma_undo_same(before, after, t2, *state, action);
            lemma_same_moves(s0, before, action);
            if action.is_skip_spec() {
                lemma_skip_record(before.skipped, after.skipped, t2.skipped, (before.ply % 4) as u64);
                crate::gamestate::lemma_skip_bits(0, 0, before.ply);
            }
            lemma_subset_game(state.skipped, before.skipped, s0.skipped);
        }
        proof {
            let old_vals = vals_g;
            let old_alpha = alpha;
            let (o_acts, o_cs, o_kids, o_firsts, o_mids, o_kids2, o_seconds, o_pres) = (acts_g, cs_g,
                kids_g, firsts_g, mids_g, kids2_g, seconds_g, pres_g);
            acts_g = acts_g.push(action);
            vals_g = vals_g.push(score as int);
            cs_g = cs_g.push(searcher.evaluation_cache.cache@);
            kids_g = kids_g.push(after);
            firsts_g = firsts_g.push(first_g);
            mids_g = mids_g.push(mid_g);
            kids2_g = kids2_g.push(kid2_g);
            seconds_g = seconds_g.push(second_g);
            pres_g = pres_g.push(before);
            lemma_alpha_after_push(original_alpha as int, old_vals, score as int);
            lemma_best_push(o_acts, old_vals, action, score as int, o_acts.len() as int);
            let m = old_vals.len() as int;
            if !searcher.stop {
                assert(!stop_before);
                lemma_steps_push(s0, n_in, original_alpha as int, beta_in as int, current_depth as int,
                    (depth_left - 1) as nat, o_acts, old_vals, o_cs, o_kids, o_firsts, o_mids, o_kids2, o_seconds,
                    o_pres, (action, score as int, searcher.evaluation_cache.cache@, after, first_g, mid_g, kid2_g,
                    second_g, before), o_acts.len());
                assert(vals_g[m] == score as int);
                assert(alpha_after(original_alpha as int, vals_g, m) == old_alpha as int);
                assert(cs_g[m] == c_before);
                assert(steps_ok(s0, n_in, original_alpha as int, beta_in as int, current_depth as int,
                    (depth_left - 1) as nat, acts_g, vals_g, cs_g, kids_g, firsts_g, mids_g, kids2_g, seconds_g,
                    pres_g, (m + 1) as nat));
            }
        }
        if score > best_score {
            best_action_index = index;
            best_score = score;
            searcher.pv_table.action_lists[current_depth].clear();
            searcher.pv_table.action_lists[current_depth].push(action);
            if is_pv_node {
                append_variation(&mut searcher.pv_table, current_depth, current_depth + 1);
            }
            if score > alpha {
                alpha = score;
            }
        }
        proof {
            searched_one = true;
        }
        if alpha >= beta {
            break;
        }
        index = index + 1;
    }
    let ghost al_final = al@;
    let best_action = al.get(best_action_index);
    proof {
        searcher.transposition_table.lemma_wf();
    }
    let ghost table_before = searcher.transposition_table@;
    searcher.transposition_table.insert(
        state.hash,
        TranspositionTableEntry {
            action: best_action,
            score: best_score,
            ply: state.ply,
            depth_left: #[verifier::truncate] (depth_left as u8),
            alpha: best_score <= original_alpha,
            beta: alpha >= beta,
            hash: state.hash,
        },
    );
    proof {
        let k = slot(state.hash, searcher.transposition_table.entries_spec());
        lemma_table_stays_empty(
            table_before,
            searcher.transposition_table@,
            k,
            TranspositionTableEntry {
                action: best_action,
                score: best_score,
                ply: state.ply,
                depth_left: #[verifier::truncate] (depth_left as u8),
                alpha: best_score <= original_alpha,
                beta: alpha >= beta,
                hash: state.hash,
            },
        );
    }
    std::mem::swap(&mut al, &mut searcher.action_list_stack.action_lists[depth_left]);
    proof {
        if alpha < beta {
            lemma_all_searched(s0, gen, al_final, acts_g);
        }
        if depth_left == 1 {
            assert(possible_actions(s0, gen) && steps_g <= 1 + 2 * gen.len());
            assert(few_steps(s0, steps_g));
        }
        assert(counted(n_old, stop_old, searcher.nodes_searched, searcher.stop, steps_g));
        if !searcher.stop {
            lemma_steps_searched_with(c_in, searcher.evaluation_cache.cache@, n_in, s0, original_alpha as int,
                beta_in as int, current_depth as int, depth_left as nat, alpha as int,
                line_of(searcher.pv_table.action_lists@[current_depth as int]@), acts_g, vals_g, cs_g,
                kids_g, firsts_g, mids_g, kids2_g, seconds_g, pres_g);
            lemma_steps_searched(c_in, searcher.evaluation_cache.cache@, n_in, s0, original_alpha as int,
                beta_in as int, current_depth as int, depth_left as nat, alpha as int, acts_g, vals_g, cs_g,
                kids_g, firsts_g, mids_g, kids2_g, seconds_g, pres_g);
        }
    }
    alpha
}

/// Whether iterative deepening ends after a completed depth: its line is as long as the one
/// before, so the end of the game tree was reached, or that depth took more than half of the
/// time left (`time_limit - spent`, wrapping).
pub fn last_iteration(line_len: usize, last_len: usize, depth_time: u128, spent: u128, time_limit: u128) -> (r: bool)
    ensures
        r == (line_len == last_len || depth_time as int > (if spent <= time_limit {
            time_limit - spent
        } else {
            time_limit - spent + 0x1_0000_0000_0000_0000_0000_0000_0000_0000
        }) / 2),
{
    line_len == last_len || depth_time > time_limit.wrapping_sub(spent) / 2
}

impl Searcher {
    /// A searcher with empty tables that may spend `time_limit` milliseconds on a move.
    pub fn new(time_limit: u128) -> (r: Searcher)
        ensures
            searcher_ok(r),
            r.nodes_searched == 0,
            r.root_ply == 0,
            !r.stop,
            r.principal_variation@ == Seq::<Action>::empty(),
            r.time_limit == time_limit,
    {
        Searcher {
            nodes_searched: 0,
            root_ply: 0,
            stop: false,
            action_list_stack: ActionListStack::with_size(MAX_SEARCH_DEPTH),
            principal_variation: ActionList::default(),
            pv_table: ActionListStack::with_size(MAX_SEARCH_DEPTH),
            transposition_table: TranspositionTable::with_size(TT_SIZE),
            evaluation_cache: EvaluationCache::with_size(EVAL_CACHE_SIZE),
            start_time: now(),
            time_limit,
        }
    }

    /// The best action found for the color to move: the position is searched one move deeper
    /// at a time until time runs out, the end of the game tree is reached, the next depth
    /// would take longer than the time left, or the deepest iteration is done. The first move
    /// of the principal variation of the last completed depth is returned; a skip when no
    /// depth was completed.
    pub fn search_action(&mut self, state: &GameState) -> (r: Action)
        requires
            searcher_ok(*old(self)),
            boards_sane(*state),
            !game_over(*state),
        ensures
            searcher_ok(*final(self)),
            possible_action(*state, r),
            final(self).time_limit == old(self).time_limit,
            final(self).principal_variation@.len() > 0 ==> r == final(self).principal_variation@[0],
            final(self).principal_variation@.len() == 0 ==> r == Action(crate::action::SKIP_CODE) && final(self).stop,
            has_moves(*state) && final(self).principal_variation@.len() > 0 ==> !r.is_skip_spec(),
            (forall|acts: Seq<Action>| #[trigger] possible_actions(*state, acts) ==> acts.len() <= 2047)
                ==> final(self).principal_variation@.len() > 0,
            final(self).principal_variation@.len() > 0 ==> exists|
                t: GameState,
                c0: Seq<EvaluationCacheEntry>,
                c1: Seq<EvaluationCacheEntry>,
                d: nat,
                v: int,
            |
                #[trigger] searched_with(c0, c1, final(self).evaluation_cache.entries, t, -32767, 32767, 0, d, v, Some(r))
                    && same_position(t, *state) && t.skipped & !state.skipped == 0 && 1 <= d <= 40,
    {
        let mut state = *state;
        let ghost s0 = state;
        proof {
            lemma_subset_self(state.skipped);
        }
        self.nodes_searched = 0;
        self.root_ply = state.ply;
        self.start_time = now();
        self.stop = false;
        self.principal_variation.clear();
        let mut best_action = Action::skip();
        let mut last_principal_variation_size: usize = 0;
        let mut depth: usize = 1;
        let ghost mut stopped = false;
        let ghost mut done = false;
        let ghost small = forall|acts: Seq<Action>| #[trigger] possible_actions(s0, acts) ==> acts.len() <= 2047;
        let ghost mut w_t = s0;
        let ghost mut w_c0 = self.evaluation_cache.cache@;
        let ghost mut w_c1 = self.evaluation_cache.cache@;
        let ghost mut w_d: nat = 1;
        let ghost mut w_v: int = 0;
        let ghost entries0 = self.evaluation_cache.entries;
        while depth <= MAX_SEARCH_DEPTH
            invariant_except_break
                !stopped,
                !done ==> self.nodes_searched == 0 && !self.stop && state == s0,
            invariant
                stopped ==> self.stop,
                done ==> self.principal_variation@.len() > 0,
                !done ==> depth == 1 && self.principal_variation@.len() == 0,
                small == (forall|acts: Seq<Action>| #[trigger] possible_actions(s0, acts) ==> acts.len() <= 2047),
                small && stopped ==> done,
                self.evaluation_cache.entries == entries0,
                done ==> searched_with(w_c0, w_c1, entries0, w_t, -32767, 32767, 0, w_d, w_v, Some(best_action))
                    && same_position(w_t, s0) && w_t.skipped & !s0.skipped == 0 && 1 <= w_d <= 40,
                self.principal_variation@.len() > 0 ==> best_action == self.principal_variation@[0],
                self.principal_variation@.len() == 0 ==> best_action == Action(crate::action::SKIP_CODE),
                has_moves(s0) && self.principal_variation@.len() > 0 ==> !best_action.is_skip_spec(),
                searcher_ok(*self),
                same_position(state, s0),
                state.skipped & !s0.skipped == 0,
                boards_sane(s0),
                !game_over(s0),
                !game_over(state),
                possible_action(s0, best_action),
                1 <= depth,
                self.time_limit == old(self).time_limit,
            ensures
                !done ==> stopped,
                small ==> done,
                self.evaluation_cache.entries == entries0,
                done ==> searched_with(w_c0, w_c1, entries0, w_t, -32767, 32767, 0, w_d, w_v, Some(best_action))
                    && same_position(w_t, s0) && w_t.skipped & !s0.skipped == 0 && 1 <= w_d <= 40,
                stopped ==> self.stop,
                done ==> self.principal_variation@.len() > 0,
                !done ==> self.principal_variation@.len() == 0,
                self.principal_variation@.len() > 0 ==> best_action == self.principal_variation@[0],
                self.principal_variation@.len() == 0 ==> best_action == Action(crate::action::SKIP_CODE),
                has_moves(s0) && self.principal_variation@.len() > 0 ==> !best_action.is_skip_spec(),
                searcher_ok(*self),
                possible_action(s0, best_action),
                self.time_limit == old(self).time_limit,
            decreases MAX_SEARCH_DEPTH + 1 - depth,
        {
            proof {
                lemma_same_moves(s0, state, best_action);
            }
            let depth_start_time = now();
            let ghost before = state;
            let ghost nodes0 = self.nodes_searched;
            let ghost stop0 = self.stop;
            let ghost cache0 = self.evaluation_cache.cache@;
            let _current_score = principal_variation_search(self, &mut state, -MAX_SCORE, MAX_SCORE, 0, depth);
            proof {
                lemma_subset_game(state.skipped, before.skipped, s0.skipped);
                lemma_same_moves(before, state, best_action);
                if !done && small {
                    lemma_first_depth_runs(s0, nodes0, stop0, self.nodes_searched, self.stop);
                }
            }
            let time = as_millis(&elapsed(&self.start_time));
            if self.stop {
                proof {
                    stopped = true;
                }
                break;
            }
            self.principal_variation = self.pv_table.action_lists[0].clone();
            best_action = self.principal_variation.get(0);
            proof {
                done = true;
                w_t = before;
                w_c0 = cache0;
                w_c1 = self.evaluation_cache.cache@;
                w_d = depth as nat;
                w_v = _current_score as int;
                if has_moves(s0) {
                    lemma_has_moves_kept(s0, before);
                }
            }
            proof {
                lemma_same_moves(s0, before, best_action);
            }
            let depth_time = as_millis(&elapsed(&depth_start_time));
            if last_iteration(
                self.principal_variation.size(),
                last_principal_variation_size,
                depth_time,
                time,
                self.time_limit,
            ) {
                break;
            }
            last_principal_variation_size = self.principal_variation.size();
            depth = depth + 1;
        }
        best_action
    }

    /// Clears the tables and the counters.
    pub fn reset(&mut self)
        ensures
            searcher_ok(*final(self)),
            final(self).nodes_searched == 0,
            final(self).root_ply == 0,
            !final(self).stop,
            final(self).time_limit == old(self).time_limit,
            final(self).start_time == old(self).start_time,
            final(self).principal_variation == old(self).principal_variation,
            final(self).pv_table == old(self).pv_table,
            final(self).action_list_stack == old(self).action_list_stack,
            final(self).evaluation_cache.entries == EVAL_CACHE_SIZE,
            final(self).evaluation_cache.cache@ == Seq::new(EVAL_CACHE_SIZE as nat, |i: int| crate::cache::empty_evaluation()),
            final(self).transposition_table.entries_spec() == TT_SIZE,
            final(self).transposition_table@ == Seq::new(TT_SIZE as nat, |i: int| empty_entry()),
    {
        self.transposition_table = TranspositionTable::with_size(TT_SIZE);
        self.evaluation_cache = EvaluationCache::with_size(EVAL_CACHE_SIZE);
        self.nodes_searched = 0;
        self.root_ply = 0;
        self.stop = false;
    }
}

} // verus!

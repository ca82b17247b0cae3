use blokus::action::Action;
use blokus::actionlist::{ActionList, ActionListStack};
use blokus::cache::{EvaluationCache, TranspositionTable, TranspositionTableEntry};
use blokus::evaluation::static_evaluation;
use blokus::gamestate::GameState;
use blokus::search::{principal_variation_search, Searcher};
use std::time::Instant;

const FEN: &str = "14096 6654190920398850590723072 98304 31901482040045200628318736031602966529 20282409835765575363979011887727056 93461620752214586704661989910642688 0 0 42535316147536582995760855127085285377 170141507984438882183735147901579427843 17179881472 996921076067189429491089201464125440 1952305854528819124263596185110970368 0 0 0 73014483968 9470764998692365211093174290282477568";

fn small_searcher(time_limit: u128) -> Searcher {
    Searcher {
        nodes_searched: 0,
        root_ply: 0,
        stop: false,
        action_list_stack: ActionListStack::with_size(4),
        principal_variation: ActionList::default(),
        pv_table: ActionListStack::with_size(4),
        transposition_table: TranspositionTable::with_size(1024),
        evaluation_cache: EvaluationCache::with_size(1024),
        start_time: Instant::now(),
        time_limit,
    }
}

#[test]
fn evaluation_of_the_start() {
    assert_eq!(static_evaluation(&GameState::default()), 0);
}

#[test]
fn evaluation_of_a_finished_game() {
    let mut state = GameState::default();
    state.skipped = 15;
    // a draw with blue to move: minus the mate score
    assert_eq!(static_evaluation(&state), -32000);
    state.ply = 1;
    assert_eq!(static_evaluation(&state), 32000);
}

#[test]
fn evaluation_is_antisymmetric_in_the_mover() {
    let state = GameState::from_fen(FEN.to_string());
    let mut other = state;
    other.ply += 1;
    assert_eq!(static_evaluation(&state), -static_evaluation(&other));
}

#[test]
fn depth_zero_is_the_evaluation() {
    let mut searcher = small_searcher(10_000);
    let mut state = GameState::from_fen(FEN.to_string());
    let score = principal_variation_search(&mut searcher, &mut state, -32767, 32767, 0, 0);
    assert_eq!(score, static_evaluation(&state));
    // the second time the score comes from the cache
    let again = principal_variation_search(&mut searcher, &mut state, -32767, 32767, 0, 0);
    assert_eq!(again, score);
}

#[test]
fn depth_one_takes_the_best_move() {
    let mut searcher = small_searcher(10_000);
    let mut state = GameState::from_fen(FEN.to_string());
    let start = state;
    let score = principal_variation_search(&mut searcher, &mut state, -32767, 32767, 0, 1);
    let mut al = ActionList::default();
    start.get_possible_actions(&mut al);
    let mut best = -32767;
    for i in 0..al.size() {
        let mut child = start;
        child.do_action(al.get(i));
        let value = -static_evaluation(&child);
        if value > best {
            best = value;
        }
    }
    assert_eq!(score, best);
    assert_eq!(state.board, start.board);
    assert_eq!(state.ply, start.ply);
    assert!(searcher.pv_table.action_lists[0].size() > 0);
}

#[test]
fn search_returns_a_possible_action() {
    let mut searcher = small_searcher(300);
    let state = GameState::from_fen(FEN.to_string());
    let action = searcher.search_action(&state);
    let mut al = ActionList::default();
    state.get_possible_actions(&mut al);
    let mut found = false;
    for i in 0..al.size() {
        if al.get(i) == action {
            found = true;
        }
    }
    assert!(found);
}

#[test]
fn transposition_table_keeps_empty_slots() {
    let mut table = TranspositionTable::with_size(8);
    let entry = TranspositionTableEntry {
        action: Action::set(0, 0),
        score: 5,
        ply: 3,
        depth_left: 2,
        alpha: false,
        beta: false,
        hash: 9,
    };
    table.insert(9, entry);
    assert!(table.lookup(9).is_empty());
    assert_eq!(table.lookup(9), TranspositionTableEntry::empty());
}

#[test]
fn evaluation_cache_reads_back() {
    let mut cache = EvaluationCache::with_size(8);
    assert_eq!(cache.lookup(3).score, -32768);
    cache.insert(3, 42);
    assert_eq!(cache.lookup(3).score, 42);
    assert_eq!(cache.lookup(11).hash, 3);
    cache.insert(11, 7);
    assert_eq!(cache.lookup(3).hash, 11);
}


#[test]
fn a_forced_skip_into_a_drawn_end_is_worth_the_mate_score() {
    let mut searcher = small_searcher(10_000);
    let mut state = GameState::default();
    state.ply = 7;
    state.skipped = 0b0111;
    let start = state;
    let score = principal_variation_search(&mut searcher, &mut state, -32767, 32767, 0, 1);
    assert_eq!(score, 32000);
    assert_eq!(state.skipped, start.skipped);
    assert_eq!(state.board, start.board);
    assert_eq!(state.ply, start.ply);
    assert_eq!(searcher.nodes_searched, 2);
    assert_eq!(searcher.pv_table.action_lists[0].size(), 1);
    assert_eq!(searcher.pv_table.action_lists[0].get(0), Action::skip());
}

#[test]
fn the_search_returns_a_move_when_there_is_one() {
    let mut searcher = small_searcher(2_000);
    let state = GameState::from_fen(FEN.to_string());
    let action = searcher.search_action(&state);
    assert!(!action.is_skip());
    assert_eq!(action, searcher.principal_variation.get(0));
}

#[test]
fn evaluation_of_boards_off_the_board() {
    let mut state = GameState::default();
    state.board[0].flip_bit(20);
    state.board[1].flip_bit(20);
    assert!(!state.boards_are_sane());
    assert_eq!(static_evaluation(&state), -static_evaluation(&{
        let mut other = state;
        other.ply += 1;
        other
    }));
    assert!(GameState::default().boards_are_sane());
}

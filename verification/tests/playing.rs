use blokus::action::Action;
use blokus::actionlist::ActionList;
use blokus::bitboard::Bitboard;
use blokus::dataset::{u128_hash, EvaluationCache};
use blokus::gamestate::GameState;
use blokus::heuristics::{calculate_leaks, calculate_placement_fields, estimate_reachable_fields};
use blokus::playout::{draw_shape, pentomino_shape, random_action, try_action};
use rand::rngs::SmallRng;
use rand::SeedableRng;

const FEN: &str = "17168 6732109985381697757862914 884736 31901482040045200655988913714818449409 20282409835765575363979011887727056 93461620752214586704661989910642688 0 0 42535316147536582995760855127085285377 170141548549277432327859950371488137219 17179881472 996921076067190019787743985368344704 1952305854528819124263596185110970368 0 0 0 2535303278298107582477523524608 9470764998692365211093174290282477568";

#[test]
fn pentomino_shapes() {
    assert_eq!(pentomino_shape(0), 7);
    assert_eq!(pentomino_shape(2), 10);
    assert_eq!(pentomino_shape(3), 23);
    assert_eq!(pentomino_shape(14), 34);
    assert_eq!(pentomino_shape(15), 43);
    assert_eq!(pentomino_shape(62), 90);
}

#[test]
fn random_fields_are_set_fields() {
    let mut rng = SmallRng::seed_from_u64(7);
    let mut board = Bitboard::empty();
    for f in [3u16, 70, 200, 450] {
        board.flip_bit(f);
    }
    for _ in 0..50 {
        let mut b = board;
        let f = b.random_field(&mut rng);
        assert!(board.check_bit(f));
    }
    assert_eq!(Bitboard::empty().random_field(&mut rng), 512);
}

#[test]
fn random_actions_are_moves() {
    let mut rng = SmallRng::seed_from_u64(11);
    let state = GameState::from_fen(FEN.to_string());
    let mut al = ActionList::default();
    state.get_possible_actions(&mut al);
    for _ in 0..100 {
        let action = random_action(&state, &mut rng, false);
        if action.is_set() {
            let mut found = false;
            for i in 0..al.size() {
                if al.get(i) == action {
                    found = true;
                }
            }
            assert!(found);
        }
    }
    let mut skipped = state;
    skipped.skipped |= 1 << skipped.get_current_color();
    assert_eq!(random_action(&skipped, &mut rng, true), Action::skip());
}

#[test]
fn start_placement_fields() {
    let state = GameState::default();
    let occupied = state.get_occupied_fields();
    let placement = calculate_placement_fields(&state, &occupied);
    for c in 0..4 {
        assert_eq!(placement[c].count_ones(), 4);
        assert!(placement[c].check_bit(0) && placement[c].check_bit(418));
    }
    let reachable = estimate_reachable_fields(&state, &placement, &occupied);
    // four steps from a corner
    assert!(reachable[0].check_bit(4) && !reachable[0].check_bit(5));
    assert!(reachable[0].check_bit(2 + 2 * 21));
    let leaks = calculate_leaks(&state, &placement, &reachable, &occupied);
    assert!(leaks[0].is_empty());
}

#[test]
fn dataset_cache() {
    let state = GameState::from_fen(FEN.to_string());
    let mut al = ActionList::default();
    state.get_possible_actions(&mut al);
    let mut cache = EvaluationCache::with_size(64);
    assert_eq!(cache.lookup(&state), None);
    assert!(cache.should_replace(0, 1, 10));
    cache.insert(&state, &al.get(0), 3);
    assert!(cache.lookup(&state).is_some());
    let slot = (u128_hash(&state) % 64) as usize;
    let _ = slot;
    // a skip is never stored
    let mut other = EvaluationCache::with_size(64);
    other.insert(&state, &Action::skip(), 3);
    assert_eq!(other.lookup(&state), None);
}

#[test]
fn hash_depends_on_the_position() {
    let a = GameState::default();
    let mut b = a;
    b.board[2].flip_bit(44);
    assert_ne!(u128_hash(&a), u128_hash(&b));
    assert_eq!(u128_hash(&a), u128_hash(&GameState::default()));
}

#[test]
fn test_random_actions() {
    let mut al = ActionList::default();
    let mut rng = SmallRng::from_entropy();
    for _ in 0..300 {
        let mut state = GameState::random();
        let mut action = Action::skip();
        state.get_possible_actions(&mut al);
        for _ in 0..100 {
            action = random_action(&state, &mut rng, false);
            let mut is_legal = false;
            for i in 0..al.size() {
                if action == al.get(i) {
                    is_legal = true;
                    break;
                }
            }
            if !is_legal {
                panic!("Invalid action");
            }
        }
        while al.size() > 0 {
            action = random_action(&state, &mut rng, false);
            for i in 0..al.size() {
                if al.get(i) == action {
                    al.swap(i, al.size() - 1);
                    al.truncate(al.size() - 1);
                    break;
                }
            }
        }
        state.do_action(action);
    }
}

#[test]
fn drawn_shapes_and_fields() {
    let mut state = GameState::default();
    assert_eq!(draw_shape(&state, 9, false), 24);
    state.ply = 4;
    assert_eq!(draw_shape(&state, 95, false), 4);
    assert_eq!(draw_shape(&state, 63, true), 7);
    let mut b = Bitboard::empty();
    b.flip_bit(3);
    b.flip_bit(10);
    b.flip_bit(200);
    assert_eq!(b.nth_field(0), 3);
    assert_eq!(b.nth_field(1), 10);
    assert_eq!(b.nth_field(2), 200);
}

#[test]
fn a_try_gives_a_legal_move() {
    let state = GameState::default();
    let mut al = ActionList::default();
    state.get_possible_actions(&mut al);
    let moves: Vec<Action> = (0..al.size()).map(|i| al.get(i)).collect();
    let mut found = 0;
    for shape_draw in 0..8u64 {
        for field_draw in 0..4u32 {
            if let Some(action) = try_action(&state, shape_draw, field_draw, false) {
                assert!(moves.contains(&action));
                assert_eq!(action.get_shape() as u64, 23 + shape_draw);
                found += 1;
            }
        }
    }
    assert!(found > 0);
    let mut skipped = state;
    skipped.skipped = 1;
    assert_eq!(try_action(&skipped, 0, 0, false), None);
}

#[test]
fn random_actions_skip_only_without_moves() {
    let mut rng = SmallRng::seed_from_u64(7);
    for seed in 0..20u64 {
        let mut r = SmallRng::seed_from_u64(seed);
        let mut state = GameState::default();
        for _ in 0..30 {
            let mut al = ActionList::default();
            state.get_possible_actions(&mut al);
            let action = random_action(&state, &mut rng, state.ply < 12);
            assert_eq!(action.is_skip(), al.get(0).is_skip());
            let moves: Vec<Action> = (0..al.size()).map(|i| al.get(i)).collect();
            assert!(moves.contains(&action));
            state.do_action(random_action(&state, &mut r, false));
        }
    }
}

use blokus::action::Action;
use blokus::actionlist::{ActionList, ActionListStack};
use blokus::bitboard::Bitboard;
use blokus::dataset::EvaluationCache;
use blokus::features::heuristic_features;
use blokus::gamestate::GameState;
use blokus::perft::perft;
use blokus::piece_type::PieceType;
use blokus::player::{Player, SimpleClient};
use blokus::playout::{random_playout, rave_index};
use blokus::referee::{next_step, GameStep};
use rand::rngs::SmallRng;
use rand::SeedableRng;
use blokus::xml_node::{MessageKind, XmlNode};

const FEN: &str = "9488 1813758321899637372028928 98304 31901482040045200628318736031602966529 162259508943118303423338611999184 10384593717069655257060992658440192 0 0 14680065 170141507979487117894522954291043368963 17179881472 996921076066887197892070253015345152 1952305837197645587728919239017365504 0 0 0 68719509504 9304611499219250726980198399157469184";

fn node(name: &str, attributes: &[(&str, &str)]) -> XmlNode {
    let mut n = XmlNode::new();
    n.name = name.to_string();
    for (k, v) in attributes {
        n.attribs.push((k.to_string(), v.to_string()));
    }
    n
}

fn possible(state: &GameState) -> Vec<Action> {
    let mut al = ActionList::default();
    state.get_possible_actions(&mut al);
    (0..al.size()).map(|i| al.get(i)).collect()
}

#[test]
fn perft_counts_move_sequences() {
    let state = GameState::from_fen(FEN.to_string());
    let mut als = ActionListStack::with_size(1);
    let mut s = state;
    assert_eq!(perft(&mut s, 0, &mut als), 1);
    let moves = possible(&state);
    assert_eq!(perft(&mut s, 1, &mut als), moves.len() as u64);
    let mut expected: u64 = 0;
    for a in moves.iter() {
        let mut child = state;
        child.do_action(*a);
        expected += possible(&child).len() as u64;
    }
    assert_eq!(perft(&mut s, 2, &mut als), expected);
    // the position comes back; the last-piece flags are not taken back
    assert_eq!(s.board, state.board);
    assert_eq!(s.ply, state.ply);
    assert_eq!(s.pieces_left, state.pieces_left);
    assert_eq!(s.skipped, state.skipped);
    assert_eq!(s.hash, state.hash);
}

#[test]
fn perft_of_a_finished_game_is_one() {
    let mut state = GameState::default();
    state.skipped = 15;
    let mut als = ActionListStack::with_size(0);
    assert_eq!(perft(&mut state, 3, &mut als), 1);
}

#[test]
fn random_playout_finishes_the_game() {
    let mut rng = SmallRng::seed_from_u64(7);
    let start = GameState::from_fen(FEN.to_string());
    let mut state = start;
    let (result, moves) = random_playout(&mut state, &mut rng);
    assert!(state.is_game_over());
    assert_eq!(result, state.game_result());
    assert_eq!(moves.len(), (state.ply - start.ply) as usize);
    for (k, (_, color)) in moves.iter().enumerate() {
        assert_eq!(*color, (start.ply as usize + k) % 4);
    }
}

#[test]
fn rave_slots() {
    assert_eq!(rave_index(Action::skip(), 2), 152_153);
    assert_eq!(rave_index(Action::set(5, 3), 1), (5 + 418 * 3) * 4 + 1);
}

#[test]
fn simple_client_plays_a_possible_action() {
    let state = GameState::from_fen(FEN.to_string());
    let moves = possible(&state);
    let mut client = SimpleClient::default();
    let action = client.on_move_request(&state);
    assert!(moves.contains(&action));
    let mut al = ActionList::default();
    al.push(Action(10));
    al.push(Action(20));
    al.push(Action(30));
    assert_eq!(SimpleClient::pick_action(&al, 7), Action(20));
}

#[test]
fn action_list_text() {
    let mut al = ActionList::default();
    assert_eq!(al.to_string(), "");
    al.push(Action::set(0, 0));
    al.push(Action::skip());
    assert_eq!(al.to_string(), "M_0, Skip");
}

#[test]
fn saved_lines_read_back() {
    assert_eq!(
        EvaluationCache::parse_line("123 300 5 7"),
        Some((123, Action(300), 5, 7))
    );
    assert_eq!(EvaluationCache::parse_line("123 300 5"), None);
    assert_eq!(EvaluationCache::parse_line("123 300 256 7"), None);
    assert_eq!(EvaluationCache::parse_line("x 300 5 7"), None);
    // shape 127 is no shape
    assert_eq!(EvaluationCache::parse_line("1 127 5 7"), None);

    let mut cache = EvaluationCache::with_size(10);
    cache.load_entry(123, Action(300), 5, 7);
    cache.load_entry(41, Action::skip(), 2, 1);
    assert_eq!(cache.hashes[3], 123);
    assert_eq!(cache.saved_text(), "123 300 5 7\n");
    let text = cache.saved_text();
    let line = text.lines().next().unwrap();
    assert_eq!(EvaluationCache::parse_line(line), Some((123, Action(300), 5, 7)));
}

#[test]
fn merge_keeps_the_better_entry() {
    let mut mine = EvaluationCache::with_size(10);
    mine.load_entry(13, Action(300), 5, 9);
    mine.load_entry(14, Action(301), 5, 9);
    let mut loaded = EvaluationCache::with_size(10);
    loaded.load_entry(23, Action(400), 5, 3);
    loaded.load_entry(34, Action(401), 4, 3);
    mine.merge_into(&mut loaded);
    // slot 3: same ply, deeper search replaces
    assert_eq!(loaded.hashes[3], 13);
    assert_eq!(loaded.depth[3], 9);
    // slot 4: an earlier ply stays
    assert_eq!(loaded.hashes[4], 34);
    assert_eq!(loaded.actions[4], Action(401));
}

#[test]
fn welcome_and_message_kinds() {
    assert_eq!(node("data", &[("color", "one")]).as_welcome_message(), 0);
    assert_eq!(node("data", &[("color", "two")]).as_welcome_message(), 1);
    assert_eq!(node("data", &[("class", "memento")]).message_kind(), MessageKind::Memento);
    assert_eq!(
        node("data", &[("class", "sc.framework.plugins.protocol.MoveRequest")]).message_kind(),
        MessageKind::MoveRequest
    );
    assert_eq!(node("data", &[]).message_kind(), MessageKind::OtherData);
    assert_eq!(node("joined", &[("roomId", "r")]).message_kind(), MessageKind::Joined);
    assert_eq!(node("left", &[]).message_kind(), MessageKind::Ignored);
}

#[test]
fn memento_checks() {
    let state = GameState::default();
    assert!(node("state", &[("turn", "0"), ("startPiece", "PENTO_T")]).can_update_state(&state));
    assert!(!node("state", &[("turn", "0"), ("startPiece", "MONO")]).can_update_state(&state));
    assert!(!node("state", &[("turn", "3")]).can_update_state(&state));
    let mut with_board = node("state", &[("turn", "1")]);
    let mut board = node("board", &[]);
    board.childs.push(node("field", &[("x", "0"), ("y", "0"), ("content", "BLUE")]));
    with_board.childs.push(board);
    assert!(with_board.can_update_state(&state));
    let mut memento = node("data", &[("class", "memento")]);
    assert!(!memento.can_read_memento(&state));
    memento.childs.push(with_board);
    assert!(memento.can_read_memento(&state));
}

#[test]
fn state_by_round() {
    let mut state_node = node(
        "state",
        &[("currentColorIndex", "2"), ("round", "1"), ("startPiece", "PENTO_V")],
    );
    let mut board = node("board", &[]);
    board.childs.push(node("field", &[("x", "0"), ("y", "0"), ("content", "BLUE")]));
    board.childs.push(node("field", &[("x", "19"), ("y", "0"), ("content", "YELLOW")]));
    state_node.childs.push(board);
    for (name, pieces) in [
        ("blueShapes", vec!["MONO", "PENTO_V"]),
        ("yellowShapes", vec!["DOMINO"]),
        ("redShapes", vec![]),
        ("greenShapes", vec!["PENTO_Z", "PENTO_Z"]),
    ] {
        let mut list = node(name, &[]);
        for p in pieces {
            let mut entry = node("shape", &[]);
            entry.data = p.to_string();
            list.childs.push(entry);
        }
        state_node.childs.push(list);
    }
    let mut state = GameState::default();
    let mut active = [true, true, true, true];
    state_node.update_state_by_round(&mut state, &mut active);
    assert_eq!(state.ply, 2);
    assert!(state.board[0].check_bit(0));
    assert!(state.board[1].check_bit(19));
    assert!(state.pieces_left[0][0] && state.pieces_left[16][0]);
    assert!(!state.pieces_left[1][0]);
    assert!(state.pieces_left[1][1]);
    assert!(state.pieces_left[20][3]);
    assert!(!state.pieces_left[20][2]);
    assert_eq!(active, [true, true, true, true]);
    assert_eq!(state.start_piece_type, PieceType::LPentomino);

    let mut start = node("state", &[("currentColorIndex", "0"), ("round", "1"), ("startPiece", "PENTO_V")]);
    start.childs.push(node("board", &[]));
    for name in ["blueShapes", "yellowShapes", "redShapes", "greenShapes"] {
        start.childs.push(node(name, &[]));
    }
    let mut state = GameState::default();
    start.update_state_by_round(&mut state, &mut active);
    assert_eq!(state.ply, 0);
    assert_eq!(state.start_piece_type, PieceType::VPentomino);
}

#[test]
fn referee_steps() {
    let state = GameState::default();
    assert_eq!(next_step(&state, 0), GameStep::Ask(0));
    assert_eq!(next_step(&state, 1), GameStep::Ask(1));
    let mut over = GameState::default();
    over.skipped = 15;
    assert_eq!(next_step(&over, 0), GameStep::Finished(0, 0, 0));
    let mut skipping = GameState::default();
    skipping.skipped = 1;
    assert_eq!(next_step(&skipping, 0), GameStep::Skip);
    assert_eq!(state.color_score(0), 0);
}

#[test]
fn features_of_first_moves() {
    let state = GameState::default();
    let mut al = ActionList::default();
    state.get_possible_actions(&mut al);
    let features = heuristic_features(&state, &al);
    // in the first round only the start piece, a pentomino, can be placed
    assert_eq!(features.len(), al.size());
    for (action, f) in features.iter() {
        assert_eq!(f.size, 5);
        let piece = Bitboard::with_piece(action.get_destination(), action.get_shape() as usize);
        assert_eq!(piece.count_ones(), 5);
        assert!(f.new_corners > 0);
    }
}

#[test]
fn fen_texts() {
    assert!(GameState::is_fen_text(&FEN.to_string()));
    assert!(!GameState::is_fen_text(&"1 2 3".to_string()));
    assert!(!GameState::is_fen_text(&FEN.replace("9488", "x").to_string()));
}

#[test]
fn generated_moves_are_valid_and_recognised() {
    let mut states = vec![GameState::default(), GameState::from_fen(FEN.to_string())];
    let mut state = GameState::default();
    for _ in 0..12 {
        let moves = possible(&state);
        state.do_action(moves[moves.len() / 2]);
        states.push(state);
    }
    for state in states.iter() {
        for action in possible(state) {
            assert!(state.validate_action(&action));
            if action.is_set() {
                let piece = Bitboard::with_piece(action.get_destination(), action.get_shape() as usize);
                assert_eq!(Action::from_bitboard(piece), action);
            }
        }
    }
}

#[test]
fn undo_keeps_integrity() {
    let state = GameState::from_fen(FEN.to_string());
    assert!(state.check_integrity());
    for action in possible(&state) {
        let mut s = state;
        s.do_action(action);
        s.undo_action(action);
        assert!(s.check_integrity());
        assert_eq!(s.board, state.board);
        assert_eq!(s.pieces_left, state.pieces_left);
    }
}

#[test]
fn moves_keep_integrity() {
    let mut state = GameState::default();
    assert!(state.check_integrity());
    for _ in 0..24 {
        let actions = possible(&state);
        let action = actions[actions.len() / 2];
        state.do_action(action);
        assert!(state.check_integrity());
    }
    let state = GameState::from_fen(FEN.to_string());
    for action in possible(&state) {
        let mut s = state;
        s.do_action(action);
        assert!(s.check_integrity());
    }
}

#[test]
fn team_scores_make_the_result() {
    assert_eq!(GameState::default().team_scores(), (0, 0));
    let state = GameState::from_fen(FEN.to_string());
    let (one, two) = state.team_scores();
    assert_eq!(
        one,
        state.board[0].count_ones() + state.board[2].count_ones()
    );
    assert_eq!(
        two,
        state.board[1].count_ones() + state.board[3].count_ones()
    );
    assert_eq!(one as i16 - two as i16, state.game_result());
}

#[test]
fn boards_that_are_not_one_piece_read_as_skips() {
    assert_eq!(Action::from_bitboard(Bitboard::empty()), Action::skip());
    let mut b = Bitboard::empty();
    b.flip_bit(0);
    b.flip_bit(2);
    assert_eq!(Action::from_bitboard(b), Action::skip());
    let piece = Bitboard::with_piece(44, 9);
    assert_eq!(Action::from_bitboard(piece), Action::set(44, 9));
}

#[test]
fn appending_a_shape_of_any_number() {
    let mut al = ActionList::default();
    let mut b = Bitboard::empty();
    b.flip_bit(0);
    b.flip_bit(400);
    al.append(b, 200);
    assert_eq!(al.size(), 2);
    assert_eq!(al.get(0), Action::set(400, 200));
    assert_eq!(al.get(1), Action::set(0, 200));
}

#[test]
fn shape_sizes_and_types() {
    for shape in 0..91usize {
        let t = PieceType::from_shape(shape);
        assert_eq!(t.piece_size() as u32, Bitboard::with_piece(0, shape).count_ones());
        assert_eq!((23..=30).contains(&shape), t == PieceType::LPentomino);
    }
    assert_eq!(PieceType::from_shape(0), PieceType::Monomino);
}

#[test]
fn skips_are_remembered_and_undone() {
    let state = GameState::from_fen(FEN.to_string());
    let c = state.get_current_color();
    let mut s = state;
    s.do_action(Action::skip());
    for k in 0..4 {
        assert_eq!(s.has_color_skipped(k), state.has_color_skipped(k) || k == c);
    }
    s.undo_action(Action::skip());
    assert_eq!(s, state);
    for action in possible(&state) {
        let mut s = state;
        s.do_action(action);
        s.undo_action(action);
        assert_eq!(s.board, state.board);
        assert_eq!(s.skipped, state.skipped);
        assert_eq!(s.hash, state.hash);
        assert_eq!(s.pieces_left, state.pieces_left);
    }
}

#[test]
fn every_valid_action_is_generated() {
    for fen in [FEN.to_string(), GameState::default().to_fen()] {
        let state = GameState::from_fen(fen);
        let moves = possible(&state);
        for d in 0..512u16 {
            for s in 0..91u16 {
                let action = Action::set(d, s);
                if state.validate_action(&action) {
                    assert!(moves.contains(&action));
                }
            }
        }
    }
}

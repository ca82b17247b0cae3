use blokus::action::Action;
use blokus::actionlist::ActionList;
use blokus::bitboard::Bitboard;
use blokus::gamestate::GameState;
use blokus::piece_type::PieceType;

const FEN: &str = "9488 1813758321899637372028928 98304 31901482040045200628318736031602966529 162259508943118303423338611999184 10384593717069655257060992658440192 0 0 14680065 170141507979487117894522954291043368963 17179881472 996921076066887197892070253015345152 1952305837197645587728919239017365504 0 0 0 68719509504 9304611499219250726980198399157469184";

#[test]
fn start_position() {
    let state = GameState::default();
    assert_eq!(state.get_current_color(), 0);
    assert_eq!(state.get_team(), -1);
    assert_eq!(state.start_piece_type, PieceType::LPentomino);
    assert!(!state.is_game_over());
    assert_eq!(state.game_result(), 0);
    assert!(state.check_integrity());
    assert_eq!(state.to_fen(), "176 0 0 0 0 0 0 0 0 0 0 0 0 0 0 0 0 0");
}

#[test]
fn first_moves_use_the_start_piece() {
    let state = GameState::default();
    let mut al = ActionList::default();
    state.get_possible_actions(&mut al);
    assert!(al.size() > 0);
    for i in 0..al.size() {
        let a = al.get(i);
        assert!(a.is_set());
        assert_eq!(PieceType::from_shape(a.get_shape() as usize), PieceType::LPentomino);
        assert!(state.validate_action(&a));
        // every first piece covers a corner of the board
        let piece = Bitboard::with_piece(a.get_destination(), a.get_shape() as usize);
        assert!(piece.check_bit(0) || piece.check_bit(19) || piece.check_bit(399) || piece.check_bit(418));
    }
    // moves are distinct
    for i in 0..al.size() {
        for j in 0..i {
            assert_ne!(al.get(i), al.get(j));
        }
    }
}

#[test]
fn do_and_undo() {
    let mut state = GameState::from_fen(FEN.to_string());
    let start = state;
    let mut al = ActionList::default();
    state.get_possible_actions(&mut al);
    for i in 0..al.size() {
        let a = al.get(i);
        state.do_action(a);
        assert_eq!(state.ply, start.ply + 1);
        assert!(state.check_integrity());
        state.undo_action(a);
        assert_eq!(state.board, start.board);
        assert_eq!(state.pieces_left, start.pieces_left);
        assert_eq!(state.hash, start.hash);
        assert_eq!(state.ply, start.ply);
    }
}

#[test]
fn skips_are_recorded() {
    let mut state = GameState::default();
    state.do_action(Action::skip());
    assert!(state.has_color_skipped(0));
    assert!(!state.has_color_skipped(1));
    state.do_action(Action::skip());
    state.do_action(Action::skip());
    assert!(state.has_team_skipped(0));
    assert!(!state.has_team_skipped(1));
    let mut al = ActionList::default();
    state.get_possible_actions(&mut al);
    // green has not skipped and places its start piece
    assert!(al.get(0).is_set());
}

#[test]
fn skipped_color_only_skips() {
    let mut state = GameState::default();
    for _ in 0..4 {
        state.do_action(Action::skip());
    }
    assert!(state.is_game_over());
    let mut al = ActionList::default();
    state.get_possible_actions(&mut al);
    assert_eq!(al.size(), 1);
    assert!(al.get(0).is_skip());
}

#[test]
fn invalid_actions() {
    let state = GameState::default();
    // the monomino is not the start piece
    assert!(!state.validate_action(&Action::set(0, 0)));
    // an L-pentomino away from the corner
    assert!(!state.validate_action(&Action::set(100, 23)));
    assert!(state.validate_action(&Action::skip()));
}

#[test]
fn fen_round_trip() {
    let state = GameState::from_fen(FEN.to_string());
    assert_eq!(state.to_fen(), FEN);
    assert_eq!(state.ply, 18);
    assert_eq!(state.hash, 0);
}

#[test]
fn result_counts_fields() {
    let mut state = GameState::default();
    state.board[0] = Bitboard::with_piece(0, 7);
    state.board[1] = Bitboard::with_piece(19 - 1, 1);
    // five blue fields against two yellow ones
    assert_eq!(state.game_result(), 3);
}

#[test]
fn position_picture() {
    let state = GameState::default();
    let text = state.to_string();
    assert!(text.starts_with('\u{2554}'));
    assert!(text.contains("Turn: 0 Score: 0"));
    assert!(text.ends_with('\u{255d}'));
    assert_eq!(text.lines().count(), 24);
}

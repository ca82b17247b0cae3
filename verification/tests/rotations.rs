use blokus::action::Action;
use blokus::bitboard::Bitboard;
use blokus::gamestate::GameState;
use blokus::rotation::{BoardRotation, Rotation};

fn board_with(fields: &[u16]) -> Bitboard {
    let mut b = Bitboard::empty();
    for f in fields {
        b.flip_bit(*f);
    }
    b
}

#[test]
fn rotation_round_trip() {
    let b = board_with(&[0, 1, 22, 67, 399]);
    for corner in 0..4u8 {
        for mirror in [false, true] {
            let r = Rotation::new(mirror, corner);
            assert_eq!(r.rotate_bitboard_back(r.rotate_bitboard(b)), b);
        }
    }
}

#[test]
fn rotation_of_a_position() {
    let mut state = GameState::default();
    // blue starts in the top right corner
    state.board[0] = board_with(&[19, 40]);
    let r = Rotation::from_state(&state);
    assert_eq!(r.top_left_corner, 1);
    let mut turned = state;
    r.rotate_state(&mut turned);
    assert!(turned.board[0].check_bit(0));
    assert_eq!(r.rotate_bitboard_back(turned.board[0]), state.board[0]);
}

#[test]
fn mirror_decision() {
    let mut state = GameState::default();
    state.board[0] = board_with(&[0, 1]);
    assert!(Rotation::from_state(&state).mirror);
    state.board[0] = board_with(&[0, 21]);
    assert!(!Rotation::from_state(&state).mirror);
    state.board[0] = board_with(&[0]);
    assert!(!Rotation::from_state(&state).mirror);
}

#[test]
fn rotated_actions() {
    let r = Rotation::new(false, 1);
    // the monomino at the top left is the monomino at the top right of the untransformed board
    assert_eq!(r.rotate_action(Action::set(0, 0)), Action::set(19, 0));
    assert_eq!(r.rotate_action(Action::skip()), Action::skip());
}

#[test]
fn board_rotation() {
    let mut state = GameState::default();
    state.board[0] = board_with(&[399]);
    state.board[1] = board_with(&[0]);
    let rotation = BoardRotation::rotate_state(&mut state);
    assert!(state.board[0].check_bit(0));
    assert!(state.board[1].check_bit(399));
    assert_eq!(rotation.rotate_bitboard_back(state.board[0]), board_with(&[399]));
    assert_eq!(rotation.rotate_action(Action::set(0, 0)), Action::set(399, 0));
}

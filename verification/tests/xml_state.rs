use blokus::bitboard::Bitboard;
use blokus::gamestate::GameState;
use blokus::piece_type::PieceType;
use blokus::xml_node::XmlNode;

fn node(name: &str, attributes: &[(&str, &str)]) -> XmlNode {
    let mut n = XmlNode::new();
    n.name = name.to_string();
    for (k, v) in attributes {
        n.attribs.push((k.to_string(), v.to_string()));
    }
    n
}

#[test]
fn attributes_and_children() {
    let mut root = node("room", &[("roomId", "abc"), ("roomId", "second")]);
    root.childs.push(node("data", &[("class", "memento")]));
    root.childs.push(node("data", &[("class", "other")]));
    assert_eq!(root.as_room(), "abc");
    assert_eq!(root.get_attribute("missing"), None);
    let child = root.get_child("data").unwrap();
    assert_eq!(child.get_attribute("class").unwrap(), "memento");
    assert!(root.get_child("state").is_none());
    assert_eq!(root.get_children().len(), 2);
}

#[test]
fn start_piece_from_memento() {
    let mut memento = node("data", &[("class", "memento")]);
    memento.childs.push(node("state", &[("turn", "0"), ("startPiece", "PENTO_S")]));
    let mut state = GameState::default();
    memento.as_memento(&mut state);
    assert_eq!(state.start_piece_type, PieceType::NPentomino);
    assert_eq!(state.ply, 0);
}

#[test]
fn moves_from_memento() {
    // blue placed an L-pentomino in the top left corner
    let piece = Bitboard::with_piece(0, 23);
    let mut board = node("board", &[]);
    for i in 0..420u16 {
        if piece.check_bit(i) {
            let x = (i % 21).to_string();
            let y = (i / 21).to_string();
            board.childs.push(node("field", &[("x", &x), ("y", &y), ("content", "BLUE")]));
        }
    }
    let mut state_node = node("state", &[("turn", "1")]);
    state_node.childs.push(board);
    let mut state = GameState::default();
    state_node.update_state(&mut state);
    assert_eq!(state.ply, 1);
    assert_eq!(state.board[0], piece);
    assert!(!state.pieces_left[PieceType::LPentomino as usize][0]);
    // the same turn again changes nothing
    let before = state;
    state_node.update_state(&mut state);
    assert_eq!(state, before);
}

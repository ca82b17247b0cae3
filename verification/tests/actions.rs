use blokus::action::Action;
use blokus::bitboard::Bitboard;

#[test]
fn encoding() {
    let a = Action::set(22, 9);
    assert_eq!(a.get_destination(), 22);
    assert_eq!(a.get_shape(), 9);
    assert!(a.is_set() && !a.is_skip());
    assert!(Action::skip().is_skip());
    assert_eq!(a, Action(22 * 128 + 9));
}

#[test]
fn serialization() {
    let a = Action::set(22, 9);
    assert_eq!(a.serialize(), "2825");
    assert_eq!(Action::deserialize("2825".to_string()), a);
    assert_eq!(Action::deserialize("+2825".to_string()), a);
    assert_eq!(Action::skip().serialize(), "65535");
    assert_eq!(Action::deserialize(Action::skip().serialize()), Action::skip());
}

#[test]
fn names() {
    assert_eq!(Action::set(0, 0).to_short_name(), "M_0");
    assert_eq!(Action::set(5, 9).to_short_name(), "O_649");
    assert_eq!(Action::skip().to_short_name(), "Skip");
    assert_eq!(Action::skip().to_string(), "Skip");
    assert_eq!(Action::set(22, 0).to_string(), "Set Monomino to 22 (X=1 Y=1 S=0 V=2816)");
}

#[test]
fn xml_messages() {
    assert_eq!(Action::skip().to_xml(0), "<data class=\"sc.plugin2021.SkipMove\"/>");
    assert_eq!(
        Action::set(0, 0).to_xml(0),
        "  <data class=\"sc.plugin2021.SetMove\">\n    <piece color=\"BLUE\" kind=\"MONO\" rotation=\"NONE\" isFlipped=\"false\">\n      <position x=\"0\" y=\"0\"/>\n    </piece>\n  </data>"
    );
    let xml = Action::set(43, 2).to_xml(3);
    assert!(xml.contains("color=\"GREEN\" kind=\"DOMINO\" rotation=\"RIGHT\" isFlipped=\"false\""));
    assert!(xml.contains("<position x=\"1\" y=\"2\"/>"));
}

#[test]
fn picture() {
    let text = Action::set(0, 0).visualize();
    assert!(text.starts_with("Set Monomino to 0 (X=0 Y=0 S=0 V=0)\n0 1 2"));
    assert!(Action::skip().visualize().starts_with("Skip\n"));
}

#[test]
fn from_board() {
    assert_eq!(Action::from_bitboard(Bitboard::empty()), Action::skip());
    for shape in 0..91usize {
        let board = Bitboard::with_piece(130, shape);
        assert_eq!(Action::from_bitboard(board), Action::set(130, shape as u16));
    }
    // two separate fields are no piece
    let mut board = Bitboard::bit(0);
    board.flip_bit(5);
    assert_eq!(Action::from_bitboard(board), Action::skip());
}

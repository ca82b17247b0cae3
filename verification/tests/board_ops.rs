use blokus::bitboard::Bitboard;

fn board_with(fields: &[u16]) -> Bitboard {
    let mut b = Bitboard::empty();
    for f in fields {
        b.flip_bit(*f);
    }
    b
}

#[test]
fn bits_and_counts() {
    let b = board_with(&[0, 127, 128, 300, 511]);
    assert!(b.check_bit(0) && b.check_bit(127) && b.check_bit(128) && b.check_bit(300) && b.check_bit(511));
    assert!(!b.check_bit(1));
    assert_eq!(b.count_ones(), 5);
    assert_eq!(b.trailing_zeros(), 0);
    assert_eq!(Bitboard::empty().trailing_zeros(), 512);
    assert_eq!(Bitboard::bit(300).trailing_zeros(), 300);
    assert!(Bitboard::empty().is_empty());
    assert!(b.not_empty());
}

#[test]
fn shifts() {
    let b = Bitboard::bit(100);
    assert_eq!(b.shl(50), Bitboard::bit(150));
    assert_eq!(b.shr(50), Bitboard::bit(50));
    assert_eq!(b.l_shift_save(300), Bitboard::bit(400));
    assert_eq!(b.r_shift_save(100), Bitboard::bit(0));
    assert!(b.l_shift_save(412).is_empty());
    assert!(b.r_shift_save(101).is_empty());
}

#[test]
fn neighbour_fields() {
    let b = Bitboard::bit(22);
    assert_eq!(b.neighbours(), board_with(&[1, 21, 23, 43]));
    assert_eq!(b.diagonal_neighbours(), board_with(&[0, 2, 42, 44]));
    // column 20 is not part of the board
    assert_eq!(Bitboard::bit(19).neighbours(), board_with(&[18, 40]));
}

#[test]
fn xor_and_or_not() {
    let a = board_with(&[1, 2, 3]);
    let b = board_with(&[3, 4]);
    assert_eq!(a.and(b), board_with(&[3]));
    assert_eq!(a.or(b), board_with(&[1, 2, 3, 4]));
    assert_eq!(a.xor(b), board_with(&[1, 2, 4]));
    assert_eq!(a.not().count_ones(), 509);
}

#[test]
fn piece_boards() {
    // the monomino, the horizontal domino and the vertical I-tromino
    assert_eq!(Bitboard::with_piece(0, 0), board_with(&[0]));
    assert_eq!(Bitboard::with_piece(22, 1), board_with(&[22, 23]));
    assert_eq!(Bitboard::with_piece(130, 4), board_with(&[130, 151, 172]));
}

#[test]
fn board_fen() {
    let b = board_with(&[0, 511]);
    assert_eq!(b.to_fen(), format!("{} 0 0 1", 1u128 << 127));
}

#[test]
fn mirrors() {
    let b = board_with(&[0, 22, 45]);
    assert_eq!(Bitboard::bit(0).flip(), Bitboard::bit(399));
    assert_eq!(Bitboard::bit(0).mirror(), Bitboard::bit(19));
    assert_eq!(Bitboard::bit(1).mirror_diagonal(), Bitboard::bit(21));
    assert_eq!(b.flip().flip(), b);
    assert_eq!(b.mirror().mirror(), b);
    assert_eq!(b.mirror_diagonal().mirror_diagonal(), b);
    // field 20 lies outside the 20x20 board and is dropped
    assert_eq!(board_with(&[20, 0]).flip().flip(), Bitboard::bit(0));
}

#[test]
fn quarter_turns() {
    let b = board_with(&[0, 1, 22, 67]);
    // a quarter turn left takes (x, y) to (y, 19 - x)
    assert_eq!(Bitboard::bit(1).rotate_left(), Bitboard::bit(18 * 21));
    assert_eq!(b.rotate_left().rotate_right(), b);
    assert_eq!(b.rotate_right().rotate_left(), b);
    assert_eq!(b.rotate_left().rotate_left().rotate_left().rotate_left(), b);
}

#[test]
fn board_picture() {
    let text = Bitboard::bit(0).to_string();
    assert!(text.starts_with("0 1 2 3 4 5 6 7 8 9 10        15    19\n"));
    let first_row: String = text.lines().nth(1).unwrap().to_string();
    assert!(first_row.starts_with('\u{1f7e7}'));
    assert!(first_row.ends_with("0"));
    assert_eq!(text.lines().count(), 22);
}

#[test]
fn pieces_of_board() {
    let board = Bitboard::with_piece(0, 0).or(Bitboard::with_piece(44, 4));
    let pieces = board.get_pieces();
    assert_eq!(pieces.len(), 2);
    assert_eq!(pieces[0].get_destination(), 0);
    assert_eq!(pieces[0].get_shape(), 0);
    assert_eq!(pieces[1].get_destination(), 44);
    assert_eq!(pieces[1].get_shape(), 4);
}

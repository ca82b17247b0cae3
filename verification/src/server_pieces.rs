use vstd::prelude::*;
use crate::bitboard::{Bitboard, lemma_with_piece_bits, piece_origin};
use crate::notation::{rotation_name, bool_text};
use crate::orientation::{rotation_spec, flipped_spec};
use crate::piece_type::{PieceType, shape_type_spec};
use crate::shape_laws::{seq_has, is_offset, lemma_offsets, lemma_shape_extent};

verus! {

/// The fields of a piece type as the game server lays it out before it turns the piece:
/// (column, row) pairs from the top left corner of the piece.
pub open spec fn server_fields(t: PieceType) -> Seq<(int, int)> {
    match t {
        PieceType::Monomino => seq![(0int, 0int)],
        PieceType::Domino => seq![(0int, 0int), (1int, 0int)],
        PieceType::ITromino => seq![(0int, 0int), (0int, 1int), (0int, 2int)],
        PieceType::LTromino => seq![(0int, 0int), (0int, 1int), (1int, 1int)],
        PieceType::ITetromino => seq![(0int, 0int), (0int, 1int), (0int, 2int), (0int, 3int)],
        PieceType::LTetromino => seq![(0int, 0int), (0int, 1int), (0int, 2int), (1int, 2int)],
        PieceType::TTetromino => seq![(0int, 0int), (1int, 0int), (2int, 0int), (1int, 1int)],
        PieceType::OTetromino => seq![(0int, 0int), (1int, 0int), (0int, 1int), (1int, 1int)],
        PieceType::ZTetromino => seq![(0int, 0int), (1int, 0int), (1int, 1int), (2int, 1int)],
        PieceType::FPentomino => seq![(2int, 0int), (0int, 1int), (1int, 1int), (2int, 1int), (1int, 2int)],
        PieceType::IPentomino => seq![(0int, 0int), (0int, 1int), (0int, 2int), (0int, 3int), (0int, 4int)],
        PieceType::LPentomino => seq![(0int, 0int), (0int, 1int), (0int, 2int), (0int, 3int), (1int, 3int)],
        PieceType::NPentomino => seq![(1int, 0int), (2int, 0int), (3int, 0int), (0int, 1int), (1int, 1int)],
        PieceType::PPentomino => seq![(0int, 0int), (1int, 0int), (0int, 1int), (1int, 1int), (0int, 2int)],
        PieceType::TPentomino => seq![(0int, 0int), (1int, 0int), (2int, 0int), (1int, 1int), (1int, 2int)],
        PieceType::UPentomino => seq![(0int, 0int), (2int, 0int), (0int, 1int), (1int, 1int), (2int, 1int)],
        PieceType::VPentomino => seq![(0int, 0int), (0int, 1int), (0int, 2int), (1int, 2int), (2int, 2int)],
        PieceType::WPentomino => seq![(0int, 0int), (0int, 1int), (1int, 1int), (1int, 2int), (2int, 2int)],
        PieceType::XPentomino => seq![(1int, 0int), (0int, 1int), (1int, 1int), (2int, 1int), (1int, 2int)],
        PieceType::YPentomino => seq![(1int, 0int), (0int, 1int), (1int, 1int), (1int, 2int), (1int, 3int)],
        PieceType::ZPentomino => seq![(0int, 0int), (1int, 0int), (1int, 1int), (1int, 2int), (2int, 2int)],
    }
}

/// A field of a piece turned as the game server turns pieces: a quarter turn clockwise for
/// rotation 1 (right), half round for 2 (mirror), a quarter turn anticlockwise for 3 (left),
/// not at all for 0; then, when the piece is flipped, with its column negated.
pub open spec fn server_turn(c: (int, int), rotation: u8, flipped: bool) -> (int, int) {
    let t = if rotation == 1 {
        (-c.1, c.0)
    } else if rotation == 2 {
        (-c.0, -c.1)
    } else if rotation == 3 {
        (c.1, -c.0)
    } else {
        c
    };
    if flipped {
        (-t.0, t.1)
    } else {
        t
    }
}

/// The fields of piece type `t` turned by the rotation and the flip.
pub open spec fn turned_fields(t: PieceType, rotation: u8, flipped: bool) -> Seq<(int, int)> {
    Seq::new(server_fields(t).len(), |k: int| server_turn(server_fields(t)[k], rotation, flipped))
}

/// The least column of some fields.
pub open spec fn least_column(cs: Seq<(int, int)>) -> int
    decreases cs.len(),
{
    if cs.len() <= 1 {
        cs[0].0
    } else if cs.last().0 < least_column(cs.drop_last()) {
        cs.last().0
    } else {
        least_column(cs.drop_last())
    }
}

/// The least row of some fields.
pub open spec fn least_row(cs: Seq<(int, int)>) -> int
    decreases cs.len(),
{
    if cs.len() <= 1 {
        cs[0].1
    } else if cs.last().1 < least_row(cs.drop_last()) {
        cs.last().1
    } else {
        least_row(cs.drop_last())
    }
}

/// The fields that the game server covers with piece type `t` under the rotation and the flip,
/// as offsets (column + 21 * row) from the position of the piece: the turned fields moved so
/// that their least column and least row are 0.
pub open spec fn server_offsets(t: PieceType, rotation: u8, flipped: bool) -> Seq<int> {
    let cs = turned_fields(t, rotation, flipped);
    let c0: int = least_column(cs);
    let r0: int = least_row(cs);
    Seq::new(cs.len(), |k: int| (cs[k].0 - c0) + 21 * (cs[k].1 - r0))
}

/// The offsets of the piece that the game server builds for shape `shape`.
pub open spec fn server_offsets_of(shape: usize) -> Seq<int> {
    server_offsets(shape_type_spec(shape), rotation_spec(shape), flipped_spec(shape))
}

/// The piece type that the game server reads from the kind name of a move message.
pub open spec fn server_kind(name: Seq<char>) -> Option<PieceType> {
    if name == "MONO"@ {
        Some(PieceType::Monomino)
    } else if name == "DOMINO"@ {
        Some(PieceType::Domino)
    } else if name == "TRIO_I"@ {
        Some(PieceType::ITromino)
    } else if name == "TRIO_L"@ {
        Some(PieceType::LTromino)
    } else if name == "TETRO_I"@ {
        Some(PieceType::ITetromino)
    } else if name == "TETRO_L"@ {
        Some(PieceType::LTetromino)
    } else if name == "TETRO_T"@ {
        Some(PieceType::TTetromino)
    } else if name == "TETRO_O"@ {
        Some(PieceType::OTetromino)
    } else if name == "TETRO_Z"@ {
        Some(PieceType::ZTetromino)
    } else if name == "PENTO_R"@ {
        Some(PieceType::FPentomino)
    } else if name == "PENTO_I"@ {
        Some(PieceType::IPentomino)
    } else if name == "PENTO_L"@ {
        Some(PieceType::LPentomino)
    } else if name == "PENTO_S"@ {
        Some(PieceType::NPentomino)
    } else if name == "PENTO_P"@ {
        Some(PieceType::PPentomino)
    } else if name == "PENTO_T"@ {
        Some(PieceType::TPentomino)
    } else if name == "PENTO_U"@ {
        Some(PieceType::UPentomino)
    } else if name == "PENTO_V"@ {
        Some(PieceType::VPentomino)
    } else if name == "PENTO_W"@ {
        Some(PieceType::WPentomino)
    } else if name == "PENTO_X"@ {
        Some(PieceType::XPentomino)
    } else if name == "PENTO_Y"@ {
        Some(PieceType::YPentomino)
    } else if name == "PENTO_Z"@ {
        Some(PieceType::ZPentomino)
    } else {
        None
    }
}

/// The turn that the game server reads from the rotation name of a move message: 0 for none,
/// 1 for right, 2 for mirror, 3 for left.
pub open spec fn server_rotation(name: Seq<char>) -> Option<u8> {
    if name == "NONE"@ {
        Some(0u8)
    } else if name == "RIGHT"@ {
        Some(1u8)
    } else if name == "MIRROR"@ {
        Some(2u8)
    } else if name == "LEFT"@ {
        Some(3u8)
    } else {
        None
    }
}

/// The flip that the game server reads from the `isFlipped` text of a move message.
pub open spec fn server_flip(text: Seq<char>) -> Option<bool> {
    if text == "true"@ {
        Some(true)
    } else if text == "false"@ {
        Some(false)
    } else {
        None
    }
}

/// The offsets of the piece that the game server builds from the kind name, the rotation name
/// and the flip text of a move message, when it can read all three.
pub open spec fn server_piece(kind: Seq<char>, rotation: Seq<char>, flipped: Seq<char>) -> Option<
    Seq<int>,
> {
    match (server_kind(kind), server_rotation(rotation), server_flip(flipped)) {
        (Some(t), Some(r), Some(f)) => Some(server_offsets(t, r, f)),
        _ => None,
    }
}

/// The game server reads each kind name written by `PieceType::to_xml_name` as its piece type.
proof fn lemma_kind_names(t: PieceType)
    ensures
        server_kind(t.xml_name_spec()) == Some(t),
{
    reveal_strlit("MONO");
    reveal_strlit("DOMINO");
    reveal_strlit("TRIO_I");
    reveal_strlit("TRIO_L");
    reveal_strlit("TETRO_I");
    reveal_strlit("TETRO_L");
    reveal_strlit("TETRO_T");
    reveal_strlit("TETRO_O");
    reveal_strlit("TETRO_Z");
    reveal_strlit("PENTO_R");
    reveal_strlit("PENTO_I");
    reveal_strlit("PENTO_L");
    reveal_strlit("PENTO_S");
    reveal_strlit("PENTO_P");
    reveal_strlit("PENTO_T");
    reveal_strlit("PENTO_U");
    reveal_strlit("PENTO_V");
    reveal_strlit("PENTO_W");
    reveal_strlit("PENTO_X");
    reveal_strlit("PENTO_Y");
    reveal_strlit("PENTO_Z");
    assert("MONO"@.len() == 4 && "MONO"@[0] == 'M' && "MONO"@[3] == 'O');
    assert("DOMINO"@.len() == 6 && "DOMINO"@[0] == 'D' && "DOMINO"@[5] == 'O');
    assert("TRIO_I"@.len() == 6 && "TRIO_I"@[0] == 'T' && "TRIO_I"@[5] == 'I');
    assert("TRIO_L"@.len() == 6 && "TRIO_L"@[0] == 'T' && "TRIO_L"@[5] == 'L');
    assert("TETRO_I"@.len() == 7 && "TETRO_I"@[0] == 'T' && "TETRO_I"@[6] == 'I');
    assert("TETRO_L"@.len() == 7 && "TETRO_L"@[0] == 'T' && "TETRO_L"@[6] == 'L');
    assert("TETRO_T"@.len() == 7 && "TETRO_T"@[0] == 'T' && "TETRO_T"@[6] == 'T');
    assert("TETRO_O"@.len() == 7 && "TETRO_O"@[0] == 'T' && "TETRO_O"@[6] == 'O');
    assert("TETRO_Z"@.len() == 7 && "TETRO_Z"@[0] == 'T' && "TETRO_Z"@[6] == 'Z');
    assert("PENTO_R"@.len() == 7 && "PENTO_R"@[0] == 'P' && "PENTO_R"@[6] == 'R');
    assert("PENTO_I"@.len() == 7 && "PENTO_I"@[0] == 'P' && "PENTO_I"@[6] == 'I');
    assert("PENTO_L"@.len() == 7 && "PENTO_L"@[0] == 'P' && "PENTO_L"@[6] == 'L');
    assert("PENTO_S"@.len() == 7 && "PENTO_S"@[0] == 'P' && "PENTO_S"@[6] == 'S');
    assert("PENTO_P"@.len() == 7 && "PENTO_P"@[0] == 'P' && "PENTO_P"@[6] == 'P');
    assert("PENTO_T"@.len() == 7 && "PENTO_T"@[0] == 'P' && "PENTO_T"@[6] == 'T');
    assert("PENTO_U"@.len() == 7 && "PENTO_U"@[0] == 'P' && "PENTO_U"@[6] == 'U');
    assert("PENTO_V"@.len() == 7 && "PENTO_V"@[0] == 'P' && "PENTO_V"@[6] == 'V');
    assert("PENTO_W"@.len() == 7 && "PENTO_W"@[0] == 'P' && "PENTO_W"@[6] == 'W');
    assert("PENTO_X"@.len() == 7 && "PENTO_X"@[0] == 'P' && "PENTO_X"@[6] == 'X');
    assert("PENTO_Y"@.len() == 7 && "PENTO_Y"@[0] == 'P' && "PENTO_Y"@[6] == 'Y');
    assert("PENTO_Z"@.len() == 7 && "PENTO_Z"@[0] == 'P' && "PENTO_Z"@[6] == 'Z');
}

/// The game server reads each rotation name and flip text of a move message back as the
/// rotation and the flip they were written from.
proof fn lemma_rotation_names(r: u8, b: bool)
    requires
        r <= 3,
    ensures
        server_rotation(rotation_name(r)) == Some(r),
        server_flip(bool_text(b)) == Some(b),
{
    reveal_strlit("NONE");
    reveal_strlit("RIGHT");
    reveal_strlit("MIRROR");
    reveal_strlit("LEFT");
    reveal_strlit("true");
    reveal_strlit("false");
    assert("NONE"@[0] == 'N' && "RIGHT"@[0] == 'R' && "MIRROR"@[0] == 'M' && "LEFT"@[0] == 'L');
    assert("true"@[0] == 't' && "false"@[0] == 'f');
}

/// For the shapes 0 to 9, the game server's piece is the shape.
#[verifier::rlimit(100)]
proof fn lemma_server_shape_0(shape: usize)
    requires
        0 <= shape < 10,
    ensures
        forall|j: int| #[trigger] seq_has(server_offsets_of(shape), j) == is_offset(shape, j),
{
    reveal_with_fuel(seq_has, 6);
    reveal_with_fuel(least_column, 5);
    reveal_with_fuel(least_row, 5);
    if shape == 0 {
        let cs = turned_fields(PieceType::Monomino, 0, false);
        assert(cs =~= seq![(0int, 0int)]);
        assert(least_column(cs) == 0 && least_row(cs) == 0);
        assert(server_offsets(PieceType::Monomino, 0, false) =~= seq![0int]);
    } else if shape == 1 {
        let cs = turned_fields(PieceType::Domino, 0, false);
        assert(cs =~= seq![(0int, 0int), (1int, 0int)]);
        assert(least_column(cs) == 0 && least_row(cs) == 0);
        assert(server_offsets(PieceType::Domino, 0, false) =~= seq![0int, 1int]);
    } else if shape == 2 {
        let cs = turned_fields(PieceType::Domino, 1, false);
        assert(cs =~= seq![(0int, 0int), (0int, 1int)]);
        assert(least_column(cs) == 0 && least_row(cs) == 0);
        assert(server_offsets(PieceType::Domino, 1, false) =~= seq![0int, 21int]);
    } else if shape == 3 {
        let cs = turned_fields(PieceType::ITromino, 1, false);
        assert(cs =~= seq![(0int, 0int), (-1int, 0int), (-2int, 0int)]);
        assert(least_column(cs) == -2 && least_row(cs) == 0);
        assert(server_offsets(PieceType::ITromino, 1, false) =~= seq![2int, 1int, 0int]);
    } else if shape == 4 {
        let cs = turned_fields(PieceType::ITromino, 0, false);
        assert(cs =~= seq![(0int, 0int), (0int, 1int), (0int, 2int)]);
        assert(least_column(cs) == 0 && least_row(cs) == 0);
        assert(server_offsets(PieceType::ITromino, 0, false) =~= seq![0int, 21int, 42int]);
    } else if shape == 5 {
        let cs = turned_fields(PieceType::ITetromino, 1, false);
        assert(cs =~= seq![(0int, 0int), (-1int, 0int), (-2int, 0int), (-3int, 0int)]);
        assert(least_column(cs) == -3 && least_row(cs) == 0);
        assert(server_offsets(PieceType::ITetromino, 1, false) =~= seq![3int, 2int, 1int, 0int]);
    } else if shape == 6 {
        let cs = turned_fields(PieceType::ITetromino, 0, false);
        assert(cs =~= seq![(0int, 0int), (0int, 1int), (0int, 2int), (0int, 3int)]);
        assert(least_column(cs) == 0 && least_row(cs) == 0);
        assert(server_offsets(PieceType::ITetromino, 0, false) =~= seq![0int, 21int, 42int, 63int]);
    } else if shape == 7 {
        let cs = turned_fields(PieceType::IPentomino, 1, false);
        assert(cs =~= seq![(0int, 0int), (-1int, 0int), (-2int, 0int), (-3int, 0int), (-4int, 0int)]);
        assert(least_column(cs) == -4 && least_row(cs) == 0);
        assert(server_offsets(PieceType::IPentomino, 1, false) =~= seq![4int, 3int, 2int, 1int, 0int]);
    } else if shape == 8 {
        let cs = turned_fields(PieceType::IPentomino, 0, false);
        assert(cs =~= seq![(0int, 0int), (0int, 1int), (0int, 2int), (0int, 3int), (0int, 4int)]);
        assert(least_column(cs) == 0 && least_row(cs) == 0);
        assert(server_offsets(PieceType::IPentomino, 0, false) =~= seq![0int, 21int, 42int, 63int, 84int]);
    } else if shape == 9 {
        let cs = turned_fields(PieceType::OTetromino, 0, false);
        assert(cs =~= seq![(0int, 0int), (1int, 0int), (0int, 1int), (1int, 1int)]);
        assert(least_column(cs) == 0 && least_row(cs) == 0);
        assert(server_offsets(PieceType::OTetromino, 0, false) =~= seq![0int, 1int, 21int, 22int]);
    }
}

/// For the shapes 10 to 19, the game server's piece is the shape.
#[verifier::rlimit(100)]
proof fn lemma_server_shape_1(shape: usize)
    requires
        10 <= shape < 20,
    ensures
        forall|j: int| #[trigger] seq_has(server_offsets_of(shape), j) == is_offset(shape, j),
{
    reveal_with_fuel(seq_has, 6);
    reveal_with_fuel(least_column, 5);
    reveal_with_fuel(least_row, 5);
    if shape == 10 {
        let cs = turned_fields(PieceType::XPentomino, 0, false);
        assert(cs =~= seq![(1int, 0int), (0int, 1int), (1int, 1int), (2int, 1int), (1int, 2int)]);
        assert(least_column(cs) == 0 && least_row(cs) == 0);
        assert(server_offsets(PieceType::XPentomino, 0, false) =~= seq![1int, 21int, 22int, 23int, 43int]);
    } else if shape == 11 {
        let cs = turned_fields(PieceType::LTromino, 0, false);
        assert(cs =~= seq![(0int, 0int), (0int, 1int), (1int, 1int)]);
        assert(least_column(cs) == 0 && least_row(cs) == 0);
        assert(server_offsets(PieceType::LTromino, 0, false) =~= seq![0int, 21int, 22int]);
    } else if shape == 12 {
        let cs = turned_fields(PieceType::LTromino, 1, false);
        assert(cs =~= seq![(0int, 0int), (-1int, 0int), (-1int, 1int)]);
        assert(least_column(cs) == -1 && least_row(cs) == 0);
        assert(server_offsets(PieceType::LTromino, 1, false) =~= seq![1int, 0int, 21int]);
    } else if shape == 13 {
        let cs = turned_fields(PieceType::LTromino, 2, false);
        assert(cs =~= seq![(0int, 0int), (0int, -1int), (-1int, -1int)]);
        assert(least_column(cs) == -1 && least_row(cs) == -1);
        assert(server_offsets(PieceType::LTromino, 2, false) =~= seq![22int, 1int, 0int]);
    } else if shape == 14 {
        let cs = turned_fields(PieceType::LTromino, 3, false);
        assert(cs =~= seq![(0int, 0int), (1int, 0int), (1int, -1int)]);
        assert(least_column(cs) == 0 && least_row(cs) == -1);
        assert(server_offsets(PieceType::LTromino, 3, false) =~= seq![21int, 22int, 1int]);
    } else if shape == 15 {
        let cs = turned_fields(PieceType::LTetromino, 2, true);
        assert(cs =~= seq![(0int, 0int), (0int, -1int), (0int, -2int), (1int, -2int)]);
        assert(least_column(cs) == 0 && least_row(cs) == -2);
        assert(server_offsets(PieceType::LTetromino, 2, true) =~= seq![42int, 21int, 0int, 1int]);
    } else if shape == 16 {
        let cs = turned_fields(PieceType::LTetromino, 2, false);
        assert(cs =~= seq![(0int, 0int), (0int, -1int), (0int, -2int), (-1int, -2int)]);
        assert(least_column(cs) == -1 && least_row(cs) == -2);
        assert(server_offsets(PieceType::LTetromino, 2, false) =~= seq![43int, 22int, 1int, 0int]);
    } else if shape == 17 {
        let cs = turned_fields(PieceType::LTetromino, 0, true);
        assert(cs =~= seq![(0int, 0int), (0int, 1int), (0int, 2int), (-1int, 2int)]);
        assert(least_column(cs) == -1 && least_row(cs) == 0);
        assert(server_offsets(PieceType::LTetromino, 0, true) =~= seq![1int, 22int, 43int, 42int]);
    } else if shape == 18 {
        let cs = turned_fields(PieceType::LTetromino, 0, false);
        assert(cs =~= seq![(0int, 0int), (0int, 1int), (0int, 2int), (1int, 2int)]);
        assert(least_column(cs) == 0 && least_row(cs) == 0);
        assert(server_offsets(PieceType::LTetromino, 0, false) =~= seq![0int, 21int, 42int, 43int]);
    } else if shape == 19 {
        let cs = turned_fields(PieceType::LTetromino, 3, true);
        assert(cs =~= seq![(0int, 0int), (-1int, 0int), (-2int, 0int), (-2int, -1int)]);
        assert(least_column(cs) == -2 && least_row(cs) == -1);
        assert(server_offsets(PieceType::LTetromino, 3, true) =~= seq![23int, 22int, 21int, 0int]);
    }
}

/// For the shapes 20 to 29, the game server's piece is the shape.
#[verifier::rlimit(100)]
proof fn lemma_server_shape_2(shape: usize)
    requires
        20 <= shape < 30,
    ensures
        forall|j: int| #[trigger] seq_has(server_offsets_of(shape), j) == is_offset(shape, j),
{
    reveal_with_fuel(seq_has, 6);
    reveal_with_fuel(least_column, 5);
    reveal_with_fuel(least_row, 5);
    if shape == 20 {
        let cs = turned_fields(PieceType::LTetromino, 1, false);
        assert(cs =~= seq![(0int, 0int), (-1int, 0int), (-2int, 0int), (-2int, 1int)]);
        assert(least_column(cs) == -2 && least_row(cs) == 0);
        assert(server_offsets(PieceType::LTetromino, 1, false) =~= seq![2int, 1int, 0int, 21int]);
    } else if shape == 21 {
        let cs = turned_fields(PieceType::LTetromino, 1, true);
        assert(cs =~= seq![(0int, 0int), (1int, 0int), (2int, 0int), (2int, 1int)]);
        assert(least_column(cs) == 0 && least_row(cs) == 0);
        assert(server_offsets(PieceType::LTetromino, 1, true) =~= seq![0int, 1int, 2int, 23int]);
    } else if shape == 22 {
        let cs = turned_fields(PieceType::LTetromino, 3, false);
        assert(cs =~= seq![(0int, 0int), (1int, 0int), (2int, 0int), (2int, -1int)]);
        assert(least_column(cs) == 0 && least_row(cs) == -1);
        assert(server_offsets(PieceType::LTetromino, 3, false) =~= seq![21int, 22int, 23int, 2int]);
    } else if shape == 23 {
        let cs = turned_fields(PieceType::LPentomino, 1, true);
        assert(cs =~= seq![(0int, 0int), (1int, 0int), (2int, 0int), (3int, 0int), (3int, 1int)]);
        assert(least_column(cs) == 0 && least_row(cs) == 0);
        assert(server_offsets(PieceType::LPentomino, 1, true) =~= seq![0int, 1int, 2int, 3int, 24int]);
    } else if shape == 24 {
        let cs = turned_fields(PieceType::LPentomino, 1, false);
        assert(cs =~= seq![(0int, 0int), (-1int, 0int), (-2int, 0int), (-3int, 0int), (-3int, 1int)]);
        assert(least_column(cs) == -3 && least_row(cs) == 0);
        assert(server_offsets(PieceType::LPentomino, 1, false) =~= seq![3int, 2int, 1int, 0int, 21int]);
    } else if shape == 25 {
        let cs = turned_fields(PieceType::LPentomino, 3, true);
        assert(cs =~= seq![(0int, 0int), (-1int, 0int), (-2int, 0int), (-3int, 0int), (-3int, -1int)]);
        assert(least_column(cs) == -3 && least_row(cs) == -1);
        assert(server_offsets(PieceType::LPentomino, 3, true) =~= seq![24int, 23int, 22int, 21int, 0int]);
    } else if shape == 26 {
        let cs = turned_fields(PieceType::LPentomino, 3, false);
        assert(cs =~= seq![(0int, 0int), (1int, 0int), (2int, 0int), (3int, 0int), (3int, -1int)]);
        assert(least_column(cs) == 0 && least_row(cs) == -1);
        assert(server_offsets(PieceType::LPentomino, 3, false) =~= seq![21int, 22int, 23int, 24int, 3int]);
    } else if shape == 27 {
        let cs = turned_fields(PieceType::LPentomino, 2, true);
        assert(cs =~= seq![(0int, 0int), (0int, -1int), (0int, -2int), (0int, -3int), (1int, -3int)]);
        assert(least_column(cs) == 0 && least_row(cs) == -3);
        assert(server_offsets(PieceType::LPentomino, 2, true) =~= seq![63int, 42int, 21int, 0int, 1int]);
    } else if shape == 28 {
        let cs = turned_fields(PieceType::LPentomino, 0, false);
        assert(cs =~= seq![(0int, 0int), (0int, 1int), (0int, 2int), (0int, 3int), (1int, 3int)]);
        assert(least_column(cs) == 0 && least_row(cs) == 0);
        assert(server_offsets(PieceType::LPentomino, 0, false) =~= seq![0int, 21int, 42int, 63int, 64int]);
    } else if shape == 29 {
        let cs = turned_fields(PieceType::LPentomino, 2, false);
        assert(cs =~= seq![(0int, 0int), (0int, -1int), (0int, -2int), (0int, -3int), (-1int, -3int)]);
        assert(least_column(cs) == -1 && least_row(cs) == -3);
        assert(server_offsets(PieceType::LPentomino, 2, false) =~= seq![64int, 43int, 22int, 1int, 0int]);
    }
}

/// For the shapes 30 to 39, the game server's piece is the shape.
#[verifier::rlimit(100)]
proof fn lemma_server_shape_3(shape: usize)
    requires
        30 <= shape < 40,
    ensures
        forall|j: int| #[trigger] seq_has(server_offsets_of(shape), j) == is_offset(shape, j),
{
    reveal_with_fuel(seq_has, 6);
    reveal_with_fuel(least_column, 5);
    reveal_with_fuel(least_row, 5);
    if shape == 30 {
        let cs = turned_fields(PieceType::LPentomino, 0, true);
        assert(cs =~= seq![(0int, 0int), (0int, 1int), (0int, 2int), (0int, 3int), (-1int, 3int)]);
        assert(least_column(cs) == -1 && least_row(cs) == 0);
        assert(server_offsets(PieceType::LPentomino, 0, true) =~= seq![1int, 22int, 43int, 64int, 63int]);
    } else if shape == 31 {
        let cs = turned_fields(PieceType::TPentomino, 0, false);
        assert(cs =~= seq![(0int, 0int), (1int, 0int), (2int, 0int), (1int, 1int), (1int, 2int)]);
        assert(least_column(cs) == 0 && least_row(cs) == 0);
        assert(server_offsets(PieceType::TPentomino, 0, false) =~= seq![0int, 1int, 2int, 22int, 43int]);
    } else if shape == 32 {
        let cs = turned_fields(PieceType::TPentomino, 2, false);
        assert(cs =~= seq![(0int, 0int), (-1int, 0int), (-2int, 0int), (-1int, -1int), (-1int, -2int)]);
        assert(least_column(cs) == -2 && least_row(cs) == -2);
        assert(server_offsets(PieceType::TPentomino, 2, false) =~= seq![44int, 43int, 42int, 22int, 1int]);
    } else if shape == 33 {
        let cs = turned_fields(PieceType::TPentomino, 3, false);
        assert(cs =~= seq![(0int, 0int), (0int, -1int), (0int, -2int), (1int, -1int), (2int, -1int)]);
        assert(least_column(cs) == 0 && least_row(cs) == -2);
        assert(server_offsets(PieceType::TPentomino, 3, false) =~= seq![42int, 21int, 0int, 22int, 23int]);
    } else if shape == 34 {
        let cs = turned_fields(PieceType::TPentomino, 1, false);
        assert(cs =~= seq![(0int, 0int), (0int, 1int), (0int, 2int), (-1int, 1int), (-2int, 1int)]);
        assert(least_column(cs) == -2 && least_row(cs) == 0);
        assert(server_offsets(PieceType::TPentomino, 1, false) =~= seq![2int, 23int, 44int, 22int, 21int]);
    } else if shape == 35 {
        let cs = turned_fields(PieceType::TTetromino, 0, false);
        assert(cs =~= seq![(0int, 0int), (1int, 0int), (2int, 0int), (1int, 1int)]);
        assert(least_column(cs) == 0 && least_row(cs) == 0);
        assert(server_offsets(PieceType::TTetromino, 0, false) =~= seq![0int, 1int, 2int, 22int]);
    } else if shape == 36 {
        let cs = turned_fields(PieceType::TTetromino, 2, false);
        assert(cs =~= seq![(0int, 0int), (-1int, 0int), (-2int, 0int), (-1int, -1int)]);
        assert(least_column(cs) == -2 && least_row(cs) == -1);
        assert(server_offsets(PieceType::TTetromino, 2, false) =~= seq![23int, 22int, 21int, 1int]);
    } else if shape == 37 {
        let cs = turned_fields(PieceType::TTetromino, 3, false);
        assert(cs =~= seq![(0int, 0int), (0int, -1int), (0int, -2int), (1int, -1int)]);
        assert(least_column(cs) == 0 && least_row(cs) == -2);
        assert(server_offsets(PieceType::TTetromino, 3, false) =~= seq![42int, 21int, 0int, 22int]);
    } else if shape == 38 {
        let cs = turned_fields(PieceType::TTetromino, 1, false);
        assert(cs =~= seq![(0int, 0int), (0int, 1int), (0int, 2int), (-1int, 1int)]);
        assert(least_column(cs) == -1 && least_row(cs) == 0);
        assert(server_offsets(PieceType::TTetromino, 1, false) =~= seq![1int, 22int, 43int, 21int]);
    } else if shape == 39 {
        let cs = turned_fields(PieceType::ZTetromino, 0, true);
        assert(cs =~= seq![(0int, 0int), (-1int, 0int), (-1int, 1int), (-2int, 1int)]);
        assert(least_column(cs) == -2 && least_row(cs) == 0);
        assert(server_offsets(PieceType::ZTetromino, 0, true) =~= seq![2int, 1int, 22int, 21int]);
    }
}

/// For the shapes 40 to 49, the game server's piece is the shape.
#[verifier::rlimit(100)]
proof fn lemma_server_shape_4(shape: usize)
    requires
        40 <= shape < 50,
    ensures
        forall|j: int| #[trigger] seq_has(server_offsets_of(shape), j) == is_offset(shape, j),
{
    reveal_with_fuel(seq_has, 6);
    reveal_with_fuel(least_column, 5);
    reveal_with_fuel(least_row, 5);
    if shape == 40 {
        let cs = turned_fields(PieceType::ZTetromino, 0, false);
        assert(cs =~= seq![(0int, 0int), (1int, 0int), (1int, 1int), (2int, 1int)]);
        assert(least_column(cs) == 0 && least_row(cs) == 0);
        assert(server_offsets(PieceType::ZTetromino, 0, false) =~= seq![0int, 1int, 22int, 23int]);
    } else if shape == 41 {
        let cs = turned_fields(PieceType::ZTetromino, 3, false);
        assert(cs =~= seq![(0int, 0int), (0int, -1int), (1int, -1int), (1int, -2int)]);
        assert(least_column(cs) == 0 && least_row(cs) == -2);
        assert(server_offsets(PieceType::ZTetromino, 3, false) =~= seq![42int, 21int, 22int, 1int]);
    } else if shape == 42 {
        let cs = turned_fields(PieceType::ZTetromino, 1, true);
        assert(cs =~= seq![(0int, 0int), (0int, 1int), (1int, 1int), (1int, 2int)]);
        assert(least_column(cs) == 0 && least_row(cs) == 0);
        assert(server_offsets(PieceType::ZTetromino, 1, true) =~= seq![0int, 21int, 22int, 43int]);
    } else if shape == 43 {
        let cs = turned_fields(PieceType::ZPentomino, 3, true);
        assert(cs =~= seq![(0int, 0int), (0int, -1int), (-1int, -1int), (-2int, -1int), (-2int, -2int)]);
        assert(least_column(cs) == -2 && least_row(cs) == -2);
        assert(server_offsets(PieceType::ZPentomino, 3, true) =~= seq![44int, 23int, 22int, 21int, 0int]);
    } else if shape == 44 {
        let cs = turned_fields(PieceType::ZPentomino, 3, false);
        assert(cs =~= seq![(0int, 0int), (0int, -1int), (1int, -1int), (2int, -1int), (2int, -2int)]);
        assert(least_column(cs) == 0 && least_row(cs) == -2);
        assert(server_offsets(PieceType::ZPentomino, 3, false) =~= seq![42int, 21int, 22int, 23int, 2int]);
    } else if shape == 45 {
        let cs = turned_fields(PieceType::ZPentomino, 0, true);
        assert(cs =~= seq![(0int, 0int), (-1int, 0int), (-1int, 1int), (-1int, 2int), (-2int, 2int)]);
        assert(least_column(cs) == -2 && least_row(cs) == 0);
        assert(server_offsets(PieceType::ZPentomino, 0, true) =~= seq![2int, 1int, 22int, 43int, 42int]);
    } else if shape == 46 {
        let cs = turned_fields(PieceType::ZPentomino, 0, false);
        assert(cs =~= seq![(0int, 0int), (1int, 0int), (1int, 1int), (1int, 2int), (2int, 2int)]);
        assert(least_column(cs) == 0 && least_row(cs) == 0);
        assert(server_offsets(PieceType::ZPentomino, 0, false) =~= seq![0int, 1int, 22int, 43int, 44int]);
    } else if shape == 47 {
        let cs = turned_fields(PieceType::UPentomino, 2, false);
        assert(cs =~= seq![(0int, 0int), (-2int, 0int), (0int, -1int), (-1int, -1int), (-2int, -1int)]);
        assert(least_column(cs) == -2 && least_row(cs) == -1);
        assert(server_offsets(PieceType::UPentomino, 2, false) =~= seq![23int, 21int, 2int, 1int, 0int]);
    } else if shape == 48 {
        let cs = turned_fields(PieceType::UPentomino, 0, false);
        assert(cs =~= seq![(0int, 0int), (2int, 0int), (0int, 1int), (1int, 1int), (2int, 1int)]);
        assert(least_column(cs) == 0 && least_row(cs) == 0);
        assert(server_offsets(PieceType::UPentomino, 0, false) =~= seq![0int, 2int, 21int, 22int, 23int]);
    } else if shape == 49 {
        let cs = turned_fields(PieceType::UPentomino, 1, false);
        assert(cs =~= seq![(0int, 0int), (0int, 2int), (-1int, 0int), (-1int, 1int), (-1int, 2int)]);
        assert(least_column(cs) == -1 && least_row(cs) == 0);
        assert(server_offsets(PieceType::UPentomino, 1, false) =~= seq![1int, 43int, 0int, 21int, 42int]);
    }
}

/// For the shapes 50 to 59, the game server's piece is the shape.
#[verifier::rlimit(100)]
proof fn lemma_server_shape_5(shape: usize)
    requires
        50 <= shape < 60,
    ensures
        forall|j: int| #[trigger] seq_has(server_offsets_of(shape), j) == is_offset(shape, j),
{
    reveal_with_fuel(seq_has, 6);
    reveal_with_fuel(least_column, 5);
    reveal_with_fuel(least_row, 5);
    if shape == 50 {
        let cs = turned_fields(PieceType::UPentomino, 3, false);
        assert(cs =~= seq![(0int, 0int), (0int, -2int), (1int, 0int), (1int, -1int), (1int, -2int)]);
        assert(least_column(cs) == 0 && least_row(cs) == -2);
        assert(server_offsets(PieceType::UPentomino, 3, false) =~= seq![42int, 0int, 43int, 22int, 1int]);
    } else if shape == 51 {
        let cs = turned_fields(PieceType::FPentomino, 1, true);
        assert(cs =~= seq![(0int, 2int), (1int, 0int), (1int, 1int), (1int, 2int), (2int, 1int)]);
        assert(least_column(cs) == 0 && least_row(cs) == 0);
        assert(server_offsets(PieceType::FPentomino, 1, true) =~= seq![42int, 1int, 22int, 43int, 23int]);
    } else if shape == 52 {
        let cs = turned_fields(PieceType::FPentomino, 1, false);
        assert(cs =~= seq![(0int, 2int), (-1int, 0int), (-1int, 1int), (-1int, 2int), (-2int, 1int)]);
        assert(least_column(cs) == -2 && least_row(cs) == 0);
        assert(server_offsets(PieceType::FPentomino, 1, false) =~= seq![44int, 1int, 22int, 43int, 21int]);
    } else if shape == 53 {
        let cs = turned_fields(PieceType::FPentomino, 3, true);
        assert(cs =~= seq![(0int, -2int), (-1int, 0int), (-1int, -1int), (-1int, -2int), (-2int, -1int)]);
        assert(least_column(cs) == -2 && least_row(cs) == -2);
        assert(server_offsets(PieceType::FPentomino, 3, true) =~= seq![2int, 43int, 22int, 1int, 21int]);
    } else if shape == 54 {
        let cs = turned_fields(PieceType::FPentomino, 3, false);
        assert(cs =~= seq![(0int, -2int), (1int, 0int), (1int, -1int), (1int, -2int), (2int, -1int)]);
        assert(least_column(cs) == 0 && least_row(cs) == -2);
        assert(server_offsets(PieceType::FPentomino, 3, false) =~= seq![0int, 43int, 22int, 1int, 23int]);
    } else if shape == 55 {
        let cs = turned_fields(PieceType::FPentomino, 0, false);
        assert(cs =~= seq![(2int, 0int), (0int, 1int), (1int, 1int), (2int, 1int), (1int, 2int)]);
        assert(least_column(cs) == 0 && least_row(cs) == 0);
        assert(server_offsets(PieceType::FPentomino, 0, false) =~= seq![2int, 21int, 22int, 23int, 43int]);
    } else if shape == 56 {
        let cs = turned_fields(PieceType::FPentomino, 0, true);
        assert(cs =~= seq![(-2int, 0int), (0int, 1int), (-1int, 1int), (-2int, 1int), (-1int, 2int)]);
        assert(least_column(cs) == -2 && least_row(cs) == 0);
        assert(server_offsets(PieceType::FPentomino, 0, true) =~= seq![0int, 23int, 22int, 21int, 43int]);
    } else if shape == 57 {
        let cs = turned_fields(PieceType::FPentomino, 2, true);
        assert(cs =~= seq![(2int, 0int), (0int, -1int), (1int, -1int), (2int, -1int), (1int, -2int)]);
        assert(least_column(cs) == 0 && least_row(cs) == -2);
        assert(server_offsets(PieceType::FPentomino, 2, true) =~= seq![44int, 21int, 22int, 23int, 1int]);
    } else if shape == 58 {
        let cs = turned_fields(PieceType::FPentomino, 2, false);
        assert(cs =~= seq![(-2int, 0int), (0int, -1int), (-1int, -1int), (-2int, -1int), (-1int, -2int)]);
        assert(least_column(cs) == -2 && least_row(cs) == -2);
        assert(server_offsets(PieceType::FPentomino, 2, false) =~= seq![42int, 23int, 22int, 21int, 1int]);
    } else if shape == 59 {
        let cs = turned_fields(PieceType::WPentomino, 0, false);
        assert(cs =~= seq![(0int, 0int), (0int, 1int), (1int, 1int), (1int, 2int), (2int, 2int)]);
        assert(least_column(cs) == 0 && least_row(cs) == 0);
        assert(server_offsets(PieceType::WPentomino, 0, false) =~= seq![0int, 21int, 22int, 43int, 44int]);
    }
}

/// For the shapes 60 to 69, the game server's piece is the shape.
#[verifier::rlimit(100)]
proof fn lemma_server_shape_6(shape: usize)
    requires
        60 <= shape < 70,
    ensures
        forall|j: int| #[trigger] seq_has(server_offsets_of(shape), j) == is_offset(shape, j),
{
    reveal_with_fuel(seq_has, 6);
    reveal_with_fuel(least_column, 5);
    reveal_with_fuel(least_row, 5);
    if shape == 60 {
        let cs = turned_fields(PieceType::WPentomino, 3, false);
        assert(cs =~= seq![(0int, 0int), (1int, 0int), (1int, -1int), (2int, -1int), (2int, -2int)]);
        assert(least_column(cs) == 0 && least_row(cs) == -2);
        assert(server_offsets(PieceType::WPentomino, 3, false) =~= seq![42int, 43int, 22int, 23int, 2int]);
    } else if shape == 61 {
        let cs = turned_fields(PieceType::WPentomino, 2, false);
        assert(cs =~= seq![(0int, 0int), (0int, -1int), (-1int, -1int), (-1int, -2int), (-2int, -2int)]);
        assert(least_column(cs) == -2 && least_row(cs) == -2);
        assert(server_offsets(PieceType::WPentomino, 2, false) =~= seq![44int, 23int, 22int, 1int, 0int]);
    } else if shape == 62 {
        let cs = turned_fields(PieceType::WPentomino, 1, false);
        assert(cs =~= seq![(0int, 0int), (-1int, 0int), (-1int, 1int), (-2int, 1int), (-2int, 2int)]);
        assert(least_column(cs) == -2 && least_row(cs) == 0);
        assert(server_offsets(PieceType::WPentomino, 1, false) =~= seq![2int, 1int, 22int, 21int, 42int]);
    } else if shape == 63 {
        let cs = turned_fields(PieceType::NPentomino, 3, true);
        assert(cs =~= seq![(0int, -1int), (0int, -2int), (0int, -3int), (-1int, 0int), (-1int, -1int)]);
        assert(least_column(cs) == -1 && least_row(cs) == -3);
        assert(server_offsets(PieceType::NPentomino, 3, true) =~= seq![43int, 22int, 1int, 63int, 42int]);
    } else if shape == 64 {
        let cs = turned_fields(PieceType::NPentomino, 3, false);
        assert(cs =~= seq![(0int, -1int), (0int, -2int), (0int, -3int), (1int, 0int), (1int, -1int)]);
        assert(least_column(cs) == 0 && least_row(cs) == -3);
        assert(server_offsets(PieceType::NPentomino, 3, false) =~= seq![42int, 21int, 0int, 64int, 43int]);
    } else if shape == 65 {
        let cs = turned_fields(PieceType::NPentomino, 1, true);
        assert(cs =~= seq![(0int, 1int), (0int, 2int), (0int, 3int), (1int, 0int), (1int, 1int)]);
        assert(least_column(cs) == 0 && least_row(cs) == 0);
        assert(server_offsets(PieceType::NPentomino, 1, true) =~= seq![21int, 42int, 63int, 1int, 22int]);
    } else if shape == 66 {
        let cs = turned_fields(PieceType::NPentomino, 1, false);
        assert(cs =~= seq![(0int, 1int), (0int, 2int), (0int, 3int), (-1int, 0int), (-1int, 1int)]);
        assert(least_column(cs) == -1 && least_row(cs) == 0);
        assert(server_offsets(PieceType::NPentomino, 1, false) =~= seq![22int, 43int, 64int, 0int, 21int]);
    } else if shape == 67 {
        let cs = turned_fields(PieceType::NPentomino, 2, false);
        assert(cs =~= seq![(-1int, 0int), (-2int, 0int), (-3int, 0int), (0int, -1int), (-1int, -1int)]);
        assert(least_column(cs) == -3 && least_row(cs) == -1);
        assert(server_offsets(PieceType::NPentomino, 2, false) =~= seq![23int, 22int, 21int, 3int, 2int]);
    } else if shape == 68 {
        let cs = turned_fields(PieceType::NPentomino, 0, true);
        assert(cs =~= seq![(-1int, 0int), (-2int, 0int), (-3int, 0int), (0int, 1int), (-1int, 1int)]);
        assert(least_column(cs) == -3 && least_row(cs) == 0);
        assert(server_offsets(PieceType::NPentomino, 0, true) =~= seq![2int, 1int, 0int, 24int, 23int]);
    } else if shape == 69 {
        let cs = turned_fields(PieceType::NPentomino, 2, true);
        assert(cs =~= seq![(1int, 0int), (2int, 0int), (3int, 0int), (0int, -1int), (1int, -1int)]);
        assert(least_column(cs) == 0 && least_row(cs) == -1);
        assert(server_offsets(PieceType::NPentomino, 2, true) =~= seq![22int, 23int, 24int, 0int, 1int]);
    }
}

/// For the shapes 70 to 79, the game server's piece is the shape.
#[verifier::rlimit(100)]
proof fn lemma_server_shape_7(shape: usize)
    requires
        70 <= shape < 80,
    ensures
        forall|j: int| #[trigger] seq_has(server_offsets_of(shape), j) == is_offset(shape, j),
{
    reveal_with_fuel(seq_has, 6);
    reveal_with_fuel(least_column, 5);
    reveal_with_fuel(least_row, 5);
    if shape == 70 {
        let cs = turned_fields(PieceType::NPentomino, 0, false);
        assert(cs =~= seq![(1int, 0int), (2int, 0int), (3int, 0int), (0int, 1int), (1int, 1int)]);
        assert(least_column(cs) == 0 && least_row(cs) == 0);
        assert(server_offsets(PieceType::NPentomino, 0, false) =~= seq![1int, 2int, 3int, 21int, 22int]);
    } else if shape == 71 {
        let cs = turned_fields(PieceType::VPentomino, 1, false);
        assert(cs =~= seq![(0int, 0int), (-1int, 0int), (-2int, 0int), (-2int, 1int), (-2int, 2int)]);
        assert(least_column(cs) == -2 && least_row(cs) == 0);
        assert(server_offsets(PieceType::VPentomino, 1, false) =~= seq![2int, 1int, 0int, 21int, 42int]);
    } else if shape == 72 {
        let cs = turned_fields(PieceType::VPentomino, 3, false);
        assert(cs =~= seq![(0int, 0int), (1int, 0int), (2int, 0int), (2int, -1int), (2int, -2int)]);
        assert(least_column(cs) == 0 && least_row(cs) == -2);
        assert(server_offsets(PieceType::VPentomino, 3, false) =~= seq![42int, 43int, 44int, 23int, 2int]);
    } else if shape == 73 {
        let cs = turned_fields(PieceType::VPentomino, 2, false);
        assert(cs =~= seq![(0int, 0int), (0int, -1int), (0int, -2int), (-1int, -2int), (-2int, -2int)]);
        assert(least_column(cs) == -2 && least_row(cs) == -2);
        assert(server_offsets(PieceType::VPentomino, 2, false) =~= seq![44int, 23int, 2int, 1int, 0int]);
    } else if shape == 74 {
        let cs = turned_fields(PieceType::VPentomino, 0, false);
        assert(cs =~= seq![(0int, 0int), (0int, 1int), (0int, 2int), (1int, 2int), (2int, 2int)]);
        assert(least_column(cs) == 0 && least_row(cs) == 0);
        assert(server_offsets(PieceType::VPentomino, 0, false) =~= seq![0int, 21int, 42int, 43int, 44int]);
    } else if shape == 75 {
        let cs = turned_fields(PieceType::PPentomino, 0, false);
        assert(cs =~= seq![(0int, 0int), (1int, 0int), (0int, 1int), (1int, 1int), (0int, 2int)]);
        assert(least_column(cs) == 0 && least_row(cs) == 0);
        assert(server_offsets(PieceType::PPentomino, 0, false) =~= seq![0int, 1int, 21int, 22int, 42int]);
    } else if shape == 76 {
        let cs = turned_fields(PieceType::PPentomino, 0, true);
        assert(cs =~= seq![(0int, 0int), (-1int, 0int), (0int, 1int), (-1int, 1int), (0int, 2int)]);
        assert(least_column(cs) == -1 && least_row(cs) == 0);
        assert(server_offsets(PieceType::PPentomino, 0, true) =~= seq![1int, 0int, 22int, 21int, 43int]);
    } else if shape == 77 {
        let cs = turned_fields(PieceType::PPentomino, 3, false);
        assert(cs =~= seq![(0int, 0int), (0int, -1int), (1int, 0int), (1int, -1int), (2int, 0int)]);
        assert(least_column(cs) == 0 && least_row(cs) == -1);
        assert(server_offsets(PieceType::PPentomino, 3, false) =~= seq![21int, 0int, 22int, 1int, 23int]);
    } else if shape == 78 {
        let cs = turned_fields(PieceType::PPentomino, 1, true);
        assert(cs =~= seq![(0int, 0int), (0int, 1int), (1int, 0int), (1int, 1int), (2int, 0int)]);
        assert(least_column(cs) == 0 && least_row(cs) == 0);
        assert(server_offsets(PieceType::PPentomino, 1, true) =~= seq![0int, 21int, 1int, 22int, 2int]);
    } else if shape == 79 {
        let cs = turned_fields(PieceType::PPentomino, 1, false);
        assert(cs =~= seq![(0int, 0int), (0int, 1int), (-1int, 0int), (-1int, 1int), (-2int, 0int)]);
        assert(least_column(cs) == -2 && least_row(cs) == 0);
        assert(server_offsets(PieceType::PPentomino, 1, false) =~= seq![2int, 23int, 1int, 22int, 0int]);
    }
}

/// For the shapes 80 to 90, the game server's piece is the shape.
#[verifier::rlimit(100)]
proof fn lemma_server_shape_8(shape: usize)
    requires
        80 <= shape < 91,
    ensures
        forall|j: int| #[trigger] seq_has(server_offsets_of(shape), j) == is_offset(shape, j),
{
    reveal_with_fuel(seq_has, 6);
    reveal_with_fuel(least_column, 5);
    reveal_with_fuel(least_row, 5);
    if shape == 80 {
        let cs = turned_fields(PieceType::PPentomino, 3, true);
        assert(cs =~= seq![(0int, 0int), (0int, -1int), (-1int, 0int), (-1int, -1int), (-2int, 0int)]);
        assert(least_column(cs) == -2 && least_row(cs) == -1);
        assert(server_offsets(PieceType::PPentomino, 3, true) =~= seq![23int, 2int, 22int, 1int, 21int]);
    } else if shape == 81 {
        let cs = turned_fields(PieceType::PPentomino, 2, false);
        assert(cs =~= seq![(0int, 0int), (-1int, 0int), (0int, -1int), (-1int, -1int), (0int, -2int)]);
        assert(least_column(cs) == -1 && least_row(cs) == -2);
        assert(server_offsets(PieceType::PPentomino, 2, false) =~= seq![43int, 42int, 22int, 21int, 1int]);
    } else if shape == 82 {
        let cs = turned_fields(PieceType::PPentomino, 2, true);
        assert(cs =~= seq![(0int, 0int), (1int, 0int), (0int, -1int), (1int, -1int), (0int, -2int)]);
        assert(least_column(cs) == 0 && least_row(cs) == -2);
        assert(server_offsets(PieceType::PPentomino, 2, true) =~= seq![42int, 43int, 21int, 22int, 0int]);
    } else if shape == 83 {
        let cs = turned_fields(PieceType::YPentomino, 0, true);
        assert(cs =~= seq![(-1int, 0int), (0int, 1int), (-1int, 1int), (-1int, 2int), (-1int, 3int)]);
        assert(least_column(cs) == -1 && least_row(cs) == 0);
        assert(server_offsets(PieceType::YPentomino, 0, true) =~= seq![0int, 22int, 21int, 42int, 63int]);
    } else if shape == 84 {
        let cs = turned_fields(PieceType::YPentomino, 2, false);
        assert(cs =~= seq![(-1int, 0int), (0int, -1int), (-1int, -1int), (-1int, -2int), (-1int, -3int)]);
        assert(least_column(cs) == -1 && least_row(cs) == -3);
        assert(server_offsets(PieceType::YPentomino, 2, false) =~= seq![63int, 43int, 42int, 21int, 0int]);
    } else if shape == 85 {
        let cs = turned_fields(PieceType::YPentomino, 2, true);
        assert(cs =~= seq![(1int, 0int), (0int, -1int), (1int, -1int), (1int, -2int), (1int, -3int)]);
        assert(least_column(cs) == 0 && least_row(cs) == -3);
        assert(server_offsets(PieceType::YPentomino, 2, true) =~= seq![64int, 42int, 43int, 22int, 1int]);
    } else if shape == 86 {
        let cs = turned_fields(PieceType::YPentomino, 0, false);
        assert(cs =~= seq![(1int, 0int), (0int, 1int), (1int, 1int), (1int, 2int), (1int, 3int)]);
        assert(least_column(cs) == 0 && least_row(cs) == 0);
        assert(server_offsets(PieceType::YPentomino, 0, false) =~= seq![1int, 21int, 22int, 43int, 64int]);
    } else if shape == 87 {
        let cs = turned_fields(PieceType::YPentomino, 3, true);
        assert(cs =~= seq![(0int, -1int), (-1int, 0int), (-1int, -1int), (-2int, -1int), (-3int, -1int)]);
        assert(least_column(cs) == -3 && least_row(cs) == -1);
        assert(server_offsets(PieceType::YPentomino, 3, true) =~= seq![3int, 23int, 2int, 1int, 0int]);
    } else if shape == 88 {
        let cs = turned_fields(PieceType::YPentomino, 3, false);
        assert(cs =~= seq![(0int, -1int), (1int, 0int), (1int, -1int), (2int, -1int), (3int, -1int)]);
        assert(least_column(cs) == 0 && least_row(cs) == -1);
        assert(server_offsets(PieceType::YPentomino, 3, false) =~= seq![0int, 22int, 1int, 2int, 3int]);
    } else if shape == 89 {
        let cs = turned_fields(PieceType::YPentomino, 1, false);
        assert(cs =~= seq![(0int, 1int), (-1int, 0int), (-1int, 1int), (-2int, 1int), (-3int, 1int)]);
        assert(least_column(cs) == -3 && least_row(cs) == 0);
        assert(server_offsets(PieceType::YPentomino, 1, false) =~= seq![24int, 2int, 23int, 22int, 21int]);
    } else if shape == 90 {
        let cs = turned_fields(PieceType::YPentomino, 1, true);
        assert(cs =~= seq![(0int, 1int), (1int, 0int), (1int, 1int), (2int, 1int), (3int, 1int)]);
        assert(least_column(cs) == 0 && least_row(cs) == 0);
        assert(server_offsets(PieceType::YPentomino, 1, true) =~= seq![21int, 1int, 22int, 23int, 24int]);
    }
}

/// The move message of a shape tells the game server that shape: for every shape, the piece
/// that the game server builds from the kind name, the rotation name and the flip text that
/// `Action::to_xml` writes for it, placed at a destination, covers exactly the fields of
/// `Bitboard::with_piece` of that destination and shape.
pub proof fn lemma_server_orientation(shape: usize, destination: u16)
    requires
        shape < 91,
        destination < 420,
    ensures
        ({
            let piece = server_piece(
                shape_type_spec(shape).xml_name_spec(),
                rotation_name(rotation_spec(shape)),
                bool_text(flipped_spec(shape)),
            );
            &&& piece == Some(server_offsets_of(shape))
            &&& forall|i: int| #[trigger] Bitboard::with_piece_spec(destination, shape).has(i) == (destination
                <= i && seq_has(piece->0, i - destination))
        }),
{
    lemma_kind_names(shape_type_spec(shape));
    lemma_rotation_names(rotation_spec(shape), flipped_spec(shape));
    if shape < 10 {
        lemma_server_shape_0(shape);
    } else if shape < 20 {
        lemma_server_shape_1(shape);
    } else if shape < 30 {
        lemma_server_shape_2(shape);
    } else if shape < 40 {
        lemma_server_shape_3(shape);
    } else if shape < 50 {
        lemma_server_shape_4(shape);
    } else if shape < 60 {
        lemma_server_shape_5(shape);
    } else if shape < 70 {
        lemma_server_shape_6(shape);
    } else if shape < 80 {
        lemma_server_shape_7(shape);
    } else {
        lemma_server_shape_8(shape);
    }
    lemma_offsets(shape);
    lemma_shape_extent(shape as int);
    lemma_with_piece_bits(destination, shape);
    assert(piece_origin(destination) == destination);
    let w = crate::bitboard::piece_shape_spec(shape);
    assert forall|i: int| #[trigger] Bitboard::with_piece_spec(destination, shape).has(i) == (destination
        <= i && seq_has(server_offsets_of(shape), i - destination)) by {
        if destination <= i && seq_has(server_offsets_of(shape), i - destination) {
            assert(crate::bits::u128_bit(w, i - destination));
        }
    }
}

} // verus!

use vstd::prelude::*;
use crate::action::{Action, set_code};
use crate::bitboard::{Bitboard, is_valid_field, piece_shape_spec, piece_origin};
use crate::bits::{u128_bit, lemma_u128_bitwise, lemma_u128_single};
use crate::bitboard::{choose_set_bit, lemma_xor_nonzero, lemma_with_piece_bits};
use crate::gamestate::{GameState, legal_move, legal_field};
use crate::pieces::{action_of_board, first_shape, min_col, min_row, top_left};
use crate::shape_bits::lemma_piece_fields;
use crate::shapes::{shape_fits, shape_touches, shape_destination};
use crate::counting::{count_of, lemma_count_disjoint, lemma_count_single, lemma_count_board};
use crate::gamestate::{placement_field, skip_bit, possible_actions};
use crate::bitboard::is_start_field;
use crate::integrity::{action_valid, integrity, pieces_recognised, used_size, has_type_upto};
use crate::pieces::pieces_from;
use crate::gamestate::{action_done, action_undone};
use crate::sanity::lemma_undo_restores;
use crate::sanity::possible_action;
use crate::piece_type::shape_type_spec;

verus! {

/// The largest column offset of a field of shape `s` from its top left corner.
pub open spec fn shape_width(s: usize) -> int {
    match s {
        0 | 2 | 4 | 6 | 8 => 0,
        1 | 9 | 11 | 12 | 13 | 14 | 15 | 16 | 17 | 18 | 27 | 28 | 29 | 30 | 37 | 38 | 41 | 42 | 49 | 50 | 63 | 64 | 65 | 66 | 75 | 76 | 81 | 82 | 83 | 84 | 85 | 86 => 1,
        3 | 10 | 19 | 20 | 21 | 22 | 31 | 32 | 33 | 34 | 35 | 36 | 39 | 40 | 43 | 44 | 45 | 46 | 47 | 48 | 51 | 52 | 53 | 54 | 55 | 56 | 57 | 58 | 59 | 60 | 61 | 62 | 71 | 72 | 73 | 74 | 77 | 78 | 79 | 80 => 2,
        5 | 23 | 24 | 25 | 26 | 67 | 68 | 69 | 70 | 87 | 88 | 89 | 90 => 3,
        _ => 4,
    }
}

/// The shape whose word is `w`; 91 for a word of no shape.
pub open spec fn shape_of_word(w: u128) -> int {
    match w {
        1u128 => 0,
        3u128 => 1,
        2097153u128 => 2,
        7u128 => 3,
        4398048608257u128 => 4,
        15u128 => 5,
        9223376434903384065u128 => 6,
        31u128 => 7,
        19342822337210501698682881u128 => 8,
        6291459u128 => 9,
        8796107702274u128 => 10,
        6291457u128 => 11,
        2097155u128 => 12,
        4194307u128 => 13,
        6291458u128 => 14,
        4398048608259u128 => 15,
        8796097216515u128 => 16,
        13194143727618u128 => 17,
        13194141630465u128 => 18,
        14680065u128 => 19,
        2097159u128 => 20,
        8388615u128 => 21,
        14680068u128 => 22,
        16777231u128 => 23,
        2097167u128 => 24,
        31457281u128 => 25,
        31457288u128 => 26,
        9223376434903384067u128 => 27,
        27670120508612935681u128 => 28,
        18446752869806768131u128 => 29,
        27670124906661543938u128 => 30,
        8796097216519u128 => 31,
        30786329772034u128 => 32,
        4398061191169u128 => 33,
        17592200724484u128 => 34,
        4194311u128 => 35,
        14680066u128 => 36,
        4398052802561u128 => 37,
        8796099313666u128 => 38,
        6291462u128 => 39,
        12582915u128 => 40,
        4398052802562u128 => 41,
        8796099313665u128 => 42,
        17592200724481u128 => 43,
        4398061191172u128 => 44,
        13194143727622u128 => 45,
        26388283260931u128 => 46,
        10485767u128 => 47,
        14680069u128 => 48,
        13194141630467u128 => 49,
        13194143727619u128 => 50,
        13194152116226u128 => 51,
        26388285358082u128 => 52,
        8796099313670u128 => 53,
        8796105605123u128 => 54,
        8796107702276u128 => 55,
        8796107702273u128 => 56,
        17592200724482u128 => 57,
        4398061191170u128 => 58,
        26388285358081u128 => 59,
        13194152116228u128 => 60,
        17592198627331u128 => 61,
        4398052802566u128 => 62,
        9223385230998503426u128 => 63,
        18446757267851182081u128 => 64,
        9223376434907578370u128 => 65,
        18446752869808865281u128 => 66,
        14680076u128 => 67,
        25165831u128 => 68,
        29360131u128 => 69,
        6291470u128 => 70,
        4398048608263u128 => 71,
        30786333966340u128 => 72,
        17592194433031u128 => 73,
        30786327674881u128 => 74,
        4398052802563u128 => 75,
        8796099313667u128 => 76,
        14680067u128 => 77,
        6291463u128 => 78,
        12582919u128 => 79,
        14680070u128 => 80,
        13194145824770u128 => 81,
        13194145824769u128 => 82,
        9223376434907578369u128 => 83,
        9223385230996406273u128 => 84,
        18446757267853279234u128 => 85,
        18446752869808865282u128 => 86,
        8388623u128 => 87,
        4194319u128 => 88,
        31457284u128 => 89,
        31457282u128 => 90,
        _ => 91,
    }
}

proof fn lemma_word_shape(s: int)
    requires
        0 <= s < 91,
    ensures
        shape_of_word(piece_shape_spec(s as usize)) == s,
{
}

/// No two of the 91 shapes cover the same fields.
proof fn lemma_shapes_distinct(s: int, t: int)
    requires
        0 <= s < 91,
        0 <= t < 91,
        piece_shape_spec(s as usize) == piece_shape_spec(t as usize),
    ensures
        s == t,
{
    lemma_word_shape(s);
    lemma_word_shape(t);
}

/// Every field of a shape lies within five columns and five rows of its top left corner, in
/// the columns up to the shape's width; one field is in the top row and one in the left
/// column.
pub(crate) proof fn lemma_shape_extent(s: int)
    requires
        0 <= s < 91,
    ensures
        forall|j: int|
            #[trigger] u128_bit(piece_shape_spec(s as usize), j) ==> 0 <= j <= 88 && j % 21
                <= shape_width(s as usize),
        exists|j: int| #[trigger] u128_bit(piece_shape_spec(s as usize), j) && 0 <= j < 21,
        exists|j: int| #[trigger] u128_bit(piece_shape_spec(s as usize), j) && j % 21 == 0,
{
    let w = shape_width(s as usize);
    let inside = |i: int| 0 <= i <= 88 && i % 21 <= w;
    let below = |i: int| i >= 21;
    let off_left = |i: int| i % 21 != 0;
    assert(shape_fits(s as usize, inside, 0));
    assert(!shape_fits(s as usize, below, 0));
    assert(!shape_fits(s as usize, off_left, 0));
    lemma_piece_fields(s as usize, inside, 0);
    lemma_piece_fields(s as usize, below, 0);
    lemma_piece_fields(s as usize, off_left, 0);
}

/// A shape whose fields all lie on the board does not wrap around its right edge.
proof fn lemma_shape_no_wrap(s: int, d: int)
    requires
        0 <= s < 91,
        shape_fits(s as usize, |i: int| is_valid_field(i), d),
    ensures
        d % 21 + shape_width(s as usize) <= 19,
{
}


proof fn lemma_min_col(b: Bitboard, n: nat)
    ensures
        forall|i: int| 0 <= i < n && #[trigger] b.has(i) ==> min_col(b, n) <= i % 21,
        min_col(b, n) == 21 || exists|i: int| 0 <= i < n && #[trigger] b.has(i) && i % 21 == min_col(b, n),
    decreases n,
{
    if n > 0 {
        lemma_min_col(b, (n - 1) as nat);
    }
}

proof fn lemma_min_row(b: Bitboard, n: nat)
    ensures
        forall|i: int| 0 <= i < n && #[trigger] b.has(i) ==> min_row(b, n) <= i / 21,
        min_row(b, n) == 21 || exists|i: int| 0 <= i < n && #[trigger] b.has(i) && i / 21 == min_row(b, n),
    decreases n,
{
    if n > 0 {
        lemma_min_row(b, (n - 1) as nat);
    }
}

/// The column and row of a field of a piece that does not wrap around the board's edge.
proof fn lemma_cell_position(d: int, j: int)
    by (nonlinear_arith)
    requires
        0 <= d,
        0 <= j,
        d % 21 + j % 21 < 21,
    ensures
        (d + j) % 21 == d % 21 + j % 21,
        (d + j) / 21 == d / 21 + j / 21,
{
}

proof fn lemma_u128_ext(a: u128, b: u128)
    requires
        forall|i: int| 0 <= i < 128 ==> #[trigger] u128_bit(a, i) == u128_bit(b, i),
    ensures
        a == b,
{
    if a != b {
        lemma_xor_nonzero(a, b);
        let k = choose_set_bit(a ^ b);
        lemma_u128_bitwise(a, b);
        assert(u128_bit(a, k) != u128_bit(b, k));
    }
}

proof fn lemma_first_shape_is(b: Bitboard, d: u16, k: nat, sh: nat)
    requires
        k <= sh < 91,
        b == Bitboard::with_piece_spec(d, sh as usize),
        forall|t: int| k <= t < sh ==> #[trigger] Bitboard::with_piece_spec(d, t as usize) != b,
    ensures
        first_shape(b, d, k) == sh,
    decreases sh - k,
{
    if k < sh {
        lemma_first_shape_is(b, d, k + 1, sh);
    }
}

/// A piece that lies on the board, with its top left corner at `d`, is recognised as the
/// action that places its shape at `d`.
pub proof fn lemma_from_bitboard_roundtrip(d: int, sh: int)
    requires
        0 <= d,
        0 <= sh < 91,
        shape_fits(sh as usize, |i: int| is_valid_field(i), d),
    ensures
        action_of_board(Bitboard::with_piece_spec(d as u16, sh as usize)) == Action((d * 128 + sh) as u16),
{
    let w = piece_shape_spec(sh as usize);
    let width = shape_width(sh as usize);
    let valid = |i: int| is_valid_field(i);
    lemma_shape_extent(sh);
    lemma_piece_fields(sh as usize, valid, d);
    lemma_shape_no_wrap(sh, d);
    let jc = choose|j: int| #[trigger] u128_bit(w, j) && j % 21 == 0;
    let jr = choose|j: int| #[trigger] u128_bit(w, j) && 0 <= j < 21;
    assert(is_valid_field(d + jc));
    assert(d < 420);
    let du = d as u16;
    assert(du as int == d);
    let b = Bitboard::with_piece_spec(du, sh as usize);
    lemma_with_piece_bits(du, sh as usize);
    assert(piece_origin(du) == d);
    // every field of the piece: column and row within the piece's box
    assert forall|i: int| 0 <= i < 512 && #[trigger] b.has(i) implies i % 21 >= d % 21 && i / 21 >= d / 21 by {
        let j = i - d;
        assert(u128_bit(w, j));
        lemma_cell_position(d, j);
    }
    lemma_cell_position(d, jc);
    lemma_cell_position(d, jr);
    assert(b.has(d + jc));
    assert(b.has(d + jr));
    lemma_min_col(b, 512);
    lemma_min_row(b, 512);
    assert(min_col(b, 512) == d % 21);
    assert(min_row(b, 512) == d / 21);
    assert(top_left(b) == d);
    lemma_u128_single(0);
    assert(b != Bitboard(0, 0, 0, 0)) by {
        assert(!Bitboard(0, 0, 0, 0).has(d + jc));
    }
    assert forall|t: int| 0 <= t < sh implies #[trigger] Bitboard::with_piece_spec(du, t as usize) != b by {
        let other = Bitboard::with_piece_spec(du, t as usize);
        if other == b {
            lemma_with_piece_bits(du, t as usize);
            lemma_shape_extent(t);
            assert forall|j: int| 0 <= j < 128 implies #[trigger] u128_bit(piece_shape_spec(t as usize), j)
                == u128_bit(w, j) by {
                if j <= 88 {
                    assert(other.has(d + j) == b.has(d + j));
                }
            }
            lemma_u128_ext(piece_shape_spec(t as usize), w);
            lemma_shapes_distinct(t, sh);
        }
    }
    lemma_first_shape_is(b, du, 0, sh as nat);
    let shu = sh as u16;
    assert(set_code(du, shu) == d * 128 + sh) by {
        assert(((du << 7u16) | shu) == du * 128 + shu) by (bit_vector)
            requires du < 512, shu < 128;
    }
}

/// Every legal move is recognised from the board of its piece (see `Action::from_bitboard`).
pub proof fn lemma_legal_move_recognised(s: GameState, d: int, sh: int)
    requires
        legal_move(s, d, sh),
    ensures
        action_of_board(Bitboard::with_piece_spec(d as u16, sh as usize)) == Action((d * 128 + sh) as u16),
{
    let c = (s.ply % 4) as int;
    let legal = |i: int| legal_field(s, c, i);
    let valid = |i: int| is_valid_field(i);
    if sh != 0 {
        lemma_piece_fields(sh as usize, legal, d);
        lemma_piece_fields(sh as usize, valid, d);
    } else {
        lemma_piece_fields(0, valid, d);
        lemma_piece_fields(0, legal, d);
    }
    assert(shape_fits(sh as usize, valid, d));
    lemma_from_bitboard_roundtrip(d, sh);
}


/// The fields of shape `s` as offsets from its top left corner, in increasing order.
pub open spec fn shape_offsets(s: usize) -> Seq<int> {
    match s {
        0 => seq![0int],
        1 => seq![0int, 1int],
        2 => seq![0int, 21int],
        3 => seq![0int, 1int, 2int],
        4 => seq![0int, 21int, 42int],
        5 => seq![0int, 1int, 2int, 3int],
        6 => seq![0int, 21int, 42int, 63int],
        7 => seq![0int, 1int, 2int, 3int, 4int],
        8 => seq![0int, 21int, 42int, 63int, 84int],
        9 => seq![0int, 1int, 21int, 22int],
        10 => seq![1int, 21int, 22int, 23int, 43int],
        11 => seq![0int, 21int, 22int],
        12 => seq![0int, 1int, 21int],
        13 => seq![0int, 1int, 22int],
        14 => seq![1int, 21int, 22int],
        15 => seq![0int, 1int, 21int, 42int],
        16 => seq![0int, 1int, 22int, 43int],
        17 => seq![1int, 22int, 42int, 43int],
        18 => seq![0int, 21int, 42int, 43int],
        19 => seq![0int, 21int, 22int, 23int],
        20 => seq![0int, 1int, 2int, 21int],
        21 => seq![0int, 1int, 2int, 23int],
        22 => seq![2int, 21int, 22int, 23int],
        23 => seq![0int, 1int, 2int, 3int, 24int],
        24 => seq![0int, 1int, 2int, 3int, 21int],
        25 => seq![0int, 21int, 22int, 23int, 24int],
        26 => seq![3int, 21int, 22int, 23int, 24int],
        27 => seq![0int, 1int, 21int, 42int, 63int],
        28 => seq![0int, 21int, 42int, 63int, 64int],
        29 => seq![0int, 1int, 22int, 43int, 64int],
        30 => seq![1int, 22int, 43int, 63int, 64int],
        31 => seq![0int, 1int, 2int, 22int, 43int],
        32 => seq![1int, 22int, 42int, 43int, 44int],
        33 => seq![0int, 21int, 22int, 23int, 42int],
        34 => seq![2int, 21int, 22int, 23int, 44int],
        35 => seq![0int, 1int, 2int, 22int],
        36 => seq![1int, 21int, 22int, 23int],
        37 => seq![0int, 21int, 22int, 42int],
        38 => seq![1int, 21int, 22int, 43int],
        39 => seq![1int, 2int, 21int, 22int],
        40 => seq![0int, 1int, 22int, 23int],
        41 => seq![1int, 21int, 22int, 42int],
        42 => seq![0int, 21int, 22int, 43int],
        43 => seq![0int, 21int, 22int, 23int, 44int],
        44 => seq![2int, 21int, 22int, 23int, 42int],
        45 => seq![1int, 2int, 22int, 42int, 43int],
        46 => seq![0int, 1int, 22int, 43int, 44int],
        47 => seq![0int, 1int, 2int, 21int, 23int],
        48 => seq![0int, 2int, 21int, 22int, 23int],
        49 => seq![0int, 1int, 21int, 42int, 43int],
        50 => seq![0int, 1int, 22int, 42int, 43int],
        51 => seq![1int, 22int, 23int, 42int, 43int],
        52 => seq![1int, 21int, 22int, 43int, 44int],
        53 => seq![1int, 2int, 21int, 22int, 43int],
        54 => seq![0int, 1int, 22int, 23int, 43int],
        55 => seq![2int, 21int, 22int, 23int, 43int],
        56 => seq![0int, 21int, 22int, 23int, 43int],
        57 => seq![1int, 21int, 22int, 23int, 44int],
        58 => seq![1int, 21int, 22int, 23int, 42int],
        59 => seq![0int, 21int, 22int, 43int, 44int],
        60 => seq![2int, 22int, 23int, 42int, 43int],
        61 => seq![0int, 1int, 22int, 23int, 44int],
        62 => seq![1int, 2int, 21int, 22int, 42int],
        63 => seq![1int, 22int, 42int, 43int, 63int],
        64 => seq![0int, 21int, 42int, 43int, 64int],
        65 => seq![1int, 21int, 22int, 42int, 63int],
        66 => seq![0int, 21int, 22int, 43int, 64int],
        67 => seq![2int, 3int, 21int, 22int, 23int],
        68 => seq![0int, 1int, 2int, 23int, 24int],
        69 => seq![0int, 1int, 22int, 23int, 24int],
        70 => seq![1int, 2int, 3int, 21int, 22int],
        71 => seq![0int, 1int, 2int, 21int, 42int],
        72 => seq![2int, 23int, 42int, 43int, 44int],
        73 => seq![0int, 1int, 2int, 23int, 44int],
        74 => seq![0int, 21int, 42int, 43int, 44int],
        75 => seq![0int, 1int, 21int, 22int, 42int],
        76 => seq![0int, 1int, 21int, 22int, 43int],
        77 => seq![0int, 1int, 21int, 22int, 23int],
        78 => seq![0int, 1int, 2int, 21int, 22int],
        79 => seq![0int, 1int, 2int, 22int, 23int],
        80 => seq![1int, 2int, 21int, 22int, 23int],
        81 => seq![1int, 21int, 22int, 42int, 43int],
        82 => seq![0int, 21int, 22int, 42int, 43int],
        83 => seq![0int, 21int, 22int, 42int, 63int],
        84 => seq![0int, 21int, 42int, 43int, 63int],
        85 => seq![1int, 22int, 42int, 43int, 64int],
        86 => seq![1int, 21int, 22int, 43int, 64int],
        87 => seq![0int, 1int, 2int, 3int, 23int],
        88 => seq![0int, 1int, 2int, 3int, 22int],
        89 => seq![2int, 21int, 22int, 23int, 24int],
        90 => seq![1int, 21int, 22int, 23int, 24int],
        _ => Seq::empty(),
    }
}

/// `j` is an element of `offs`.
pub open spec fn seq_has(offs: Seq<int>, j: int) -> bool
    decreases offs.len(),
{
    offs.len() > 0 && (offs.last() == j || seq_has(offs.drop_last(), j))
}

/// Offset `j` is one of the fields of shape `s`.
pub open spec fn is_offset(s: usize, j: int) -> bool {
    seq_has(shape_offsets(s), j)
}

/// For one shape, the facts of `lemma_offsets`.
#[verifier::rlimit(40)]
proof fn lemma_offsets_one(s: usize)
    requires
        s < 91,
    ensures
        shape_fits(s, |i: int| is_offset(s, i), 0),
        forall|j: int| is_offset(s, j) ==> !shape_fits(s, |i: int| i != j, 0),
        forall|k1: int, k2: int|
            0 <= k1 < k2 < shape_offsets(s).len() ==> shape_offsets(s)[k1] != shape_offsets(s)[k2],
        shape_offsets(s).len() == crate::piece_type::shape_type_spec(s).size_spec(),
{
    reveal_with_fuel(seq_has, 6);
    if s == 0 {
        assert(shape_offsets(s) == shape_offsets(0usize));
    } else if s == 1 {
        assert(shape_offsets(s) == shape_offsets(1usize));
    } else if s == 2 {
        assert(shape_offsets(s) == shape_offsets(2usize));
    } else if s == 3 {
        assert(shape_offsets(s) == shape_offsets(3usize));
    } else if s == 4 {
        assert(shape_offsets(s) == shape_offsets(4usize));
    } else if s == 5 {
        assert(shape_offsets(s) == shape_offsets(5usize));
    } else if s == 6 {
        assert(shape_offsets(s) == shape_offsets(6usize));
    } else if s == 7 {
        assert(shape_offsets(s) == shape_offsets(7usize));
    } else if s == 8 {
        assert(shape_offsets(s) == shape_offsets(8usize));
    } else if s == 9 {
        assert(shape_offsets(s) == shape_offsets(9usize));
    } else if s == 10 {
        assert(shape_offsets(s) == shape_offsets(10usize));
    } else if s == 11 {
        assert(shape_offsets(s) == shape_offsets(11usize));
    } else if s == 12 {
        assert(shape_offsets(s) == shape_offsets(12usize));
    } else if s == 13 {
        assert(shape_offsets(s) == shape_offsets(13usize));
    } else if s == 14 {
        assert(shape_offsets(s) == shape_offsets(14usize));
    } else if s == 15 {
        assert(shape_offsets(s) == shape_offsets(15usize));
    } else if s == 16 {
        assert(shape_offsets(s) == shape_offsets(16usize));
    } else if s == 17 {
        assert(shape_offsets(s) == shape_offsets(17usize));
    } else if s == 18 {
        assert(shape_offsets(s) == shape_offsets(18usize));
    } else if s == 19 {
        assert(shape_offsets(s) == shape_offsets(19usize));
    } else if s == 20 {
        assert(shape_offsets(s) == shape_offsets(20usize));
    } else if s == 21 {
        assert(shape_offsets(s) == shape_offsets(21usize));
    } else if s == 22 {
        assert(shape_offsets(s) == shape_offsets(22usize));
    } else if s == 23 {
        assert(shape_offsets(s) == shape_offsets(23usize));
    } else if s == 24 {
        assert(shape_offsets(s) == shape_offsets(24usize));
    } else if s == 25 {
        assert(shape_offsets(s) == shape_offsets(25usize));
    } else if s == 26 {
        assert(shape_offsets(s) == shape_offsets(26usize));
    } else if s == 27 {
        assert(shape_offsets(s) == shape_offsets(27usize));
    } else if s == 28 {
        assert(shape_offsets(s) == shape_offsets(28usize));
    } else if s == 29 {
        assert(shape_offsets(s) == shape_offsets(29usize));
    } else if s == 30 {
        assert(shape_offsets(s) == shape_offsets(30usize));
    } else if s == 31 {
        assert(shape_offsets(s) == shape_offsets(31usize));
    } else if s == 32 {
        assert(shape_offsets(s) == shape_offsets(32usize));
    } else if s == 33 {
        assert(shape_offsets(s) == shape_offsets(33usize));
    } else if s == 34 {
        assert(shape_offsets(s) == shape_offsets(34usize));
    } else if s == 35 {
        assert(shape_offsets(s) == shape_offsets(35usize));
    } else if s == 36 {
        assert(shape_offsets(s) == shape_offsets(36usize));
    } else if s == 37 {
        assert(shape_offsets(s) == shape_offsets(37usize));
    } else if s == 38 {
        assert(shape_offsets(s) == shape_offsets(38usize));
    } else if s == 39 {
        assert(shape_offsets(s) == shape_offsets(39usize));
    } else if s == 40 {
        assert(shape_offsets(s) == shape_offsets(40usize));
    } else if s == 41 {
        assert(shape_offsets(s) == shape_offsets(41usize));
    } else if s == 42 {
        assert(shape_offsets(s) == shape_offsets(42usize));
    } else if s == 43 {
        assert(shape_offsets(s) == shape_offsets(43usize));
    } else if s == 44 {
        assert(shape_offsets(s) == shape_offsets(44usize));
    } else if s == 45 {
        assert(shape_offsets(s) == shape_offsets(45usize));
    } else if s == 46 {
        assert(shape_offsets(s) == shape_offsets(46usize));
    } else if s == 47 {
        assert(shape_offsets(s) == shape_offsets(47usize));
    } else if s == 48 {
        assert(shape_offsets(s) == shape_offsets(48usize));
    } else if s == 49 {
        assert(shape_offsets(s) == shape_offsets(49usize));
    } else if s == 50 {
        assert(shape_offsets(s) == shape_offsets(50usize));
    } else if s == 51 {
        assert(shape_offsets(s) == shape_offsets(51usize));
    } else if s == 52 {
        assert(shape_offsets(s) == shape_offsets(52usize));
    } else if s == 53 {
        assert(shape_offsets(s) == shape_offsets(53usize));
    } else if s == 54 {
        assert(shape_offsets(s) == shape_offsets(54usize));
    } else if s == 55 {
        assert(shape_offsets(s) == shape_offsets(55usize));
    } else if s == 56 {
        assert(shape_offsets(s) == shape_offsets(56usize));
    } else if s == 57 {
        assert(shape_offsets(s) == shape_offsets(57usize));
    } else if s == 58 {
        assert(shape_offsets(s) == shape_offsets(58usize));
    } else if s == 59 {
        assert(shape_offsets(s) == shape_offsets(59usize));
    } else if s == 60 {
        assert(shape_offsets(s) == shape_offsets(60usize));
    } else if s == 61 {
        assert(shape_offsets(s) == shape_offsets(61usize));
    } else if s == 62 {
        assert(shape_offsets(s) == shape_offsets(62usize));
    } else if s == 63 {
        assert(shape_offsets(s) == shape_offsets(63usize));
    } else if s == 64 {
        assert(shape_offsets(s) == shape_offsets(64usize));
    } else if s == 65 {
        assert(shape_offsets(s) == shape_offsets(65usize));
    } else if s == 66 {
        assert(shape_offsets(s) == shape_offsets(66usize));
    } else if s == 67 {
        assert(shape_offsets(s) == shape_offsets(67usize));
    } else if s == 68 {
        assert(shape_offsets(s) == shape_offsets(68usize));
    } else if s == 69 {
        assert(shape_offsets(s) == shape_offsets(69usize));
    } else if s == 70 {
        assert(shape_offsets(s) == shape_offsets(70usize));
    } else if s == 71 {
        assert(shape_offsets(s) == shape_offsets(71usize));
    } else if s == 72 {
        assert(shape_offsets(s) == shape_offsets(72usize));
    } else if s == 73 {
        assert(shape_offsets(s) == shape_offsets(73usize));
    } else if s == 74 {
        assert(shape_offsets(s) == shape_offsets(74usize));
    } else if s == 75 {
        assert(shape_offsets(s) == shape_offsets(75usize));
    } else if s == 76 {
        assert(shape_offsets(s) == shape_offsets(76usize));
    } else if s == 77 {
        assert(shape_offsets(s) == shape_offsets(77usize));
    } else if s == 78 {
        assert(shape_offsets(s) == shape_offsets(78usize));
    } else if s == 79 {
        assert(shape_offsets(s) == shape_offsets(79usize));
    } else if s == 80 {
        assert(shape_offsets(s) == shape_offsets(80usize));
    } else if s == 81 {
        assert(shape_offsets(s) == shape_offsets(81usize));
    } else if s == 82 {
        assert(shape_offsets(s) == shape_offsets(82usize));
    } else if s == 83 {
        assert(shape_offsets(s) == shape_offsets(83usize));
    } else if s == 84 {
        assert(shape_offsets(s) == shape_offsets(84usize));
    } else if s == 85 {
        assert(shape_offsets(s) == shape_offsets(85usize));
    } else if s == 86 {
        assert(shape_offsets(s) == shape_offsets(86usize));
    } else if s == 87 {
        assert(shape_offsets(s) == shape_offsets(87usize));
    } else if s == 88 {
        assert(shape_offsets(s) == shape_offsets(88usize));
    } else if s == 89 {
        assert(shape_offsets(s) == shape_offsets(89usize));
    } else if s == 90 {
        assert(shape_offsets(s) == shape_offsets(90usize));
    }
}

/// The set bits of a shape's word are its offsets, which are distinct and as many as the
/// fields of its piece type.
pub(crate) proof fn lemma_offsets(s: usize)
    requires
        s < 91,
    ensures
        forall|j: int| #[trigger] u128_bit(piece_shape_spec(s), j) == is_offset(s, j),
        forall|k1: int, k2: int|
            0 <= k1 < k2 < shape_offsets(s).len() ==> shape_offsets(s)[k1] != shape_offsets(s)[k2],
        shape_offsets(s).len() == crate::piece_type::shape_type_spec(s).size_spec(),
{
    lemma_offsets_one(s);
    let l = |i: int| is_offset(s, i);
    lemma_piece_fields(s, l, 0);
    assert forall|j: int| is_offset(s, j) implies #[trigger] u128_bit(piece_shape_spec(s), j) by {
        let m = |i: int| i != j;
        lemma_piece_fields(s, m, 0);
    }
}


/// A shape touches a field where `p` holds only with one of its own fields.
#[verifier::rlimit(40)]
pub(crate) proof fn lemma_touch_cell(sh: usize, p: spec_fn(int) -> bool, d: int)
    requires
        0 < sh < 91,
        shape_touches(sh, p, d),
    ensures
        !shape_fits(sh, |i: int| !p(i), d),
{
    if sh == 1 {
        assert(shape_touches(1usize, p, d) == shape_touches(sh, p, d));
    } else if sh == 2 {
        assert(shape_touches(2usize, p, d) == shape_touches(sh, p, d));
    } else if sh == 3 {
        assert(shape_touches(3usize, p, d) == shape_touches(sh, p, d));
    } else if sh == 4 {
        assert(shape_touches(4usize, p, d) == shape_touches(sh, p, d));
    } else if sh == 5 {
        assert(shape_touches(5usize, p, d) == shape_touches(sh, p, d));
    } else if sh == 6 {
        assert(shape_touches(6usize, p, d) == shape_touches(sh, p, d));
    } else if sh == 7 {
        assert(shape_touches(7usize, p, d) == shape_touches(sh, p, d));
    } else if sh == 8 {
        assert(shape_touches(8usize, p, d) == shape_touches(sh, p, d));
    } else if sh == 9 {
        assert(shape_touches(9usize, p, d) == shape_touches(sh, p, d));
    } else if sh == 10 {
        assert(shape_touches(10usize, p, d) == shape_touches(sh, p, d));
    } else if sh == 11 {
        assert(shape_touches(11usize, p, d) == shape_touches(sh, p, d));
    } else if sh == 12 {
        assert(shape_touches(12usize, p, d) == shape_touches(sh, p, d));
    } else if sh == 13 {
        assert(shape_touches(13usize, p, d) == shape_touches(sh, p, d));
    } else if sh == 14 {
        assert(shape_touches(14usize, p, d) == shape_touches(sh, p, d));
    } else if sh == 15 {
        assert(shape_touches(15usize, p, d) == shape_touches(sh, p, d));
    } else if sh == 16 {
        assert(shape_touches(16usize, p, d) == shape_touches(sh, p, d));
    } else if sh == 17 {
        assert(shape_touches(17usize, p, d) == shape_touches(sh, p, d));
    } else if sh == 18 {
        assert(shape_touches(18usize, p, d) == shape_touches(sh, p, d));
    } else if sh == 19 {
        assert(shape_touches(19usize, p, d) == shape_touches(sh, p, d));
    } else if sh == 20 {
        assert(shape_touches(20usize, p, d) == shape_touches(sh, p, d));
    } else if sh == 21 {
        assert(shape_touches(21usize, p, d) == shape_touches(sh, p, d));
    } else if sh == 22 {
        assert(shape_touches(22usize, p, d) == shape_touches(sh, p, d));
    } else if sh == 23 {
        assert(shape_touches(23usize, p, d) == shape_touches(sh, p, d));
    } else if sh == 24 {
        assert(shape_touches(24usize, p, d) == shape_touches(sh, p, d));
    } else if sh == 25 {
        assert(shape_touches(25usize, p, d) == shape_touches(sh, p, d));
    } else if sh == 26 {
        assert(shape_touches(26usize, p, d) == shape_touches(sh, p, d));
    } else if sh == 27 {
        assert(shape_touches(27usize, p, d) == shape_touches(sh, p, d));
    } else if sh == 28 {
        assert(shape_touches(28usize, p, d) == shape_touches(sh, p, d));
    } else if sh == 29 {
        assert(shape_touches(29usize, p, d) == shape_touches(sh, p, d));
    } else if sh == 30 {
        assert(shape_touches(30usize, p, d) == shape_touches(sh, p, d));
    } else if sh == 31 {
        assert(shape_touches(31usize, p, d) == shape_touches(sh, p, d));
    } else if sh == 32 {
        assert(shape_touches(32usize, p, d) == shape_touches(sh, p, d));
    } else if sh == 33 {
        assert(shape_touches(33usize, p, d) == shape_touches(sh, p, d));
    } else if sh == 34 {
        assert(shape_touches(34usize, p, d) == shape_touches(sh, p, d));
    } else if sh == 35 {
        assert(shape_touches(35usize, p, d) == shape_touches(sh, p, d));
    } else if sh == 36 {
        assert(shape_touches(36usize, p, d) == shape_touches(sh, p, d));
    } else if sh == 37 {
        assert(shape_touches(37usize, p, d) == shape_touches(sh, p, d));
    } else if sh == 38 {
        assert(shape_touches(38usize, p, d) == shape_touches(sh, p, d));
    } else if sh == 39 {
        assert(shape_touches(39usize, p, d) == shape_touches(sh, p, d));
    } else if sh == 40 {
        assert(shape_touches(40usize, p, d) == shape_touches(sh, p, d));
    } else if sh == 41 {
        assert(shape_touches(41usize, p, d) == shape_touches(sh, p, d));
    } else if sh == 42 {
        assert(shape_touches(42usize, p, d) == shape_touches(sh, p, d));
    } else if sh == 43 {
        assert(shape_touches(43usize, p, d) == shape_touches(sh, p, d));
    } else if sh == 44 {
        assert(shape_touches(44usize, p, d) == shape_touches(sh, p, d));
    } else if sh == 45 {
        assert(shape_touches(45usize, p, d) == shape_touches(sh, p, d));
    } else if sh == 46 {
        assert(shape_touches(46usize, p, d) == shape_touches(sh, p, d));
    } else if sh == 47 {
        assert(shape_touches(47usize, p, d) == shape_touches(sh, p, d));
    } else if sh == 48 {
        assert(shape_touches(48usize, p, d) == shape_touches(sh, p, d));
    } else if sh == 49 {
        assert(shape_touches(49usize, p, d) == shape_touches(sh, p, d));
    } else if sh == 50 {
        assert(shape_touches(50usize, p, d) == shape_touches(sh, p, d));
    } else if sh == 51 {
        assert(shape_touches(51usize, p, d) == shape_touches(sh, p, d));
    } else if sh == 52 {
        assert(shape_touches(52usize, p, d) == shape_touches(sh, p, d));
    } else if sh == 53 {
        assert(shape_touches(53usize, p, d) == shape_touches(sh, p, d));
    } else if sh == 54 {
        assert(shape_touches(54usize, p, d) == shape_touches(sh, p, d));
    } else if sh == 55 {
        assert(shape_touches(55usize, p, d) == shape_touches(sh, p, d));
    } else if sh == 56 {
        assert(shape_touches(56usize, p, d) == shape_touches(sh, p, d));
    } else if sh == 57 {
        assert(shape_touches(57usize, p, d) == shape_touches(sh, p, d));
    } else if sh == 58 {
        assert(shape_touches(58usize, p, d) == shape_touches(sh, p, d));
    } else if sh == 59 {
        assert(shape_touches(59usize, p, d) == shape_touches(sh, p, d));
    } else if sh == 60 {
        assert(shape_touches(60usize, p, d) == shape_touches(sh, p, d));
    } else if sh == 61 {
        assert(shape_touches(61usize, p, d) == shape_touches(sh, p, d));
    } else if sh == 62 {
        assert(shape_touches(62usize, p, d) == shape_touches(sh, p, d));
    } else if sh == 63 {
        assert(shape_touches(63usize, p, d) == shape_touches(sh, p, d));
    } else if sh == 64 {
        assert(shape_touches(64usize, p, d) == shape_touches(sh, p, d));
    } else if sh == 65 {
        assert(shape_touches(65usize, p, d) == shape_touches(sh, p, d));
    } else if sh == 66 {
        assert(shape_touches(66usize, p, d) == shape_touches(sh, p, d));
    } else if sh == 67 {
        assert(shape_touches(67usize, p, d) == shape_touches(sh, p, d));
    } else if sh == 68 {
        assert(shape_touches(68usize, p, d) == shape_touches(sh, p, d));
    } else if sh == 69 {
        assert(shape_touches(69usize, p, d) == shape_touches(sh, p, d));
    } else if sh == 70 {
        assert(shape_touches(70usize, p, d) == shape_touches(sh, p, d));
    } else if sh == 71 {
        assert(shape_touches(71usize, p, d) == shape_touches(sh, p, d));
    } else if sh == 72 {
        assert(shape_touches(72usize, p, d) == shape_touches(sh, p, d));
    } else if sh == 73 {
        assert(shape_touches(73usize, p, d) == shape_touches(sh, p, d));
    } else if sh == 74 {
        assert(shape_touches(74usize, p, d) == shape_touches(sh, p, d));
    } else if sh == 75 {
        assert(shape_touches(75usize, p, d) == shape_touches(sh, p, d));
    } else if sh == 76 {
        assert(shape_touches(76usize, p, d) == shape_touches(sh, p, d));
    } else if sh == 77 {
        assert(shape_touches(77usize, p, d) == shape_touches(sh, p, d));
    } else if sh == 78 {
        assert(shape_touches(78usize, p, d) == shape_touches(sh, p, d));
    } else if sh == 79 {
        assert(shape_touches(79usize, p, d) == shape_touches(sh, p, d));
    } else if sh == 80 {
        assert(shape_touches(80usize, p, d) == shape_touches(sh, p, d));
    } else if sh == 81 {
        assert(shape_touches(81usize, p, d) == shape_touches(sh, p, d));
    } else if sh == 82 {
        assert(shape_touches(82usize, p, d) == shape_touches(sh, p, d));
    } else if sh == 83 {
        assert(shape_touches(83usize, p, d) == shape_touches(sh, p, d));
    } else if sh == 84 {
        assert(shape_touches(84usize, p, d) == shape_touches(sh, p, d));
    } else if sh == 85 {
        assert(shape_touches(85usize, p, d) == shape_touches(sh, p, d));
    } else if sh == 86 {
        assert(shape_touches(86usize, p, d) == shape_touches(sh, p, d));
    } else if sh == 87 {
        assert(shape_touches(87usize, p, d) == shape_touches(sh, p, d));
    } else if sh == 88 {
        assert(shape_touches(88usize, p, d) == shape_touches(sh, p, d));
    } else if sh == 89 {
        assert(shape_touches(89usize, p, d) == shape_touches(sh, p, d));
    } else if sh == 90 {
        assert(shape_touches(90usize, p, d) == shape_touches(sh, p, d));
    }
}

pub(crate) proof fn lemma_seq_has_index(offs: Seq<int>, j: int)
    ensures
        seq_has(offs, j) <==> exists|k: int| 0 <= k < offs.len() && #[trigger] offs[k] == j,
    decreases offs.len(),
{
    if offs.len() > 0 {
        let rest = offs.drop_last();
        lemma_seq_has_index(rest, j);
        if seq_has(rest, j) {
            let k = choose|k: int| 0 <= k < rest.len() && #[trigger] rest[k] == j;
            assert(offs[k] == j);
        }
        if exists|k: int| 0 <= k < offs.len() && #[trigger] offs[k] == j {
            let k = choose|k: int| 0 <= k < offs.len() && #[trigger] offs[k] == j;
            if k < rest.len() {
                assert(rest[k] == j);
            }
        }
    }
}

pub(crate) proof fn lemma_count_nothing(f: spec_fn(int) -> bool)
    requires
        forall|i: int| !#[trigger] f(i),
    ensures
        count_of(f) == 0,
{
    lemma_count_disjoint(f, f);
    assert((|i: int| f(i) || f(i)) =~= f);
}

/// The fields `d + o` for the distinct offsets `o` of `offs`, all on the board, are as many as
/// the offsets.
proof fn lemma_count_offsets(d: int, offs: Seq<int>)
    requires
        forall|k1: int, k2: int| 0 <= k1 < k2 < offs.len() ==> offs[k1] != offs[k2],
        forall|k: int| 0 <= k < offs.len() ==> 0 <= d + #[trigger] offs[k] < 512,
    ensures
        count_of(|i: int| seq_has(offs, i - d)) == offs.len(),
    decreases offs.len(),
{
    if offs.len() == 0 {
        lemma_count_nothing(|i: int| seq_has(offs, i - d));
    } else {
        let rest = offs.drop_last();
        let x = d + offs.last();
        assert forall|k1: int, k2: int| 0 <= k1 < k2 < rest.len() implies rest[k1] != rest[k2] by {
            assert(rest[k1] == offs[k1] && rest[k2] == offs[k2]);
        }
        assert forall|k: int| 0 <= k < rest.len() implies 0 <= d + #[trigger] rest[k] < 512 by {
            assert(rest[k] == offs[k]);
        }
        lemma_count_offsets(d, rest);
        let f = |i: int| seq_has(rest, i - d);
        let g = |i: int| i == x;
        assert forall|i: int| !(#[trigger] f(i) && g(i)) by {
            if f(i) && g(i) {
                lemma_seq_has_index(rest, i - d);
                let k = choose|k: int| 0 <= k < rest.len() && #[trigger] rest[k] == i - d;
                assert(offs[k] == offs[offs.len() - 1]);
            }
        }
        lemma_count_disjoint(f, g);
        lemma_count_single(x);
        assert((|i: int| f(i) || g(i)) =~= (|i: int| seq_has(offs, i - d)));
    }
}

/// A piece that lies on the board covers as many fields as its piece type has.
pub(crate) proof fn lemma_piece_size(d: int, sh: usize)
    requires
        0 <= d < 420,
        sh < 91,
    ensures
        Bitboard::with_piece_spec(d as u16, sh).count_ones_spec() == shape_type_spec(sh).size_spec(),
{
    let b = Bitboard::with_piece_spec(d as u16, sh);
    lemma_with_piece_bits(d as u16, sh);
    lemma_offsets(sh);
    lemma_shape_extent(sh as int);
    let offs = shape_offsets(sh);
    assert forall|k: int| 0 <= k < offs.len() implies 0 <= d + #[trigger] offs[k] < 512 by {
        lemma_seq_has_index(offs, offs[k]);
        assert(u128_bit(piece_shape_spec(sh), offs[k]));
    }
    lemma_count_offsets(d, offs);
    lemma_count_board(b);
    assert((|i: int| b.has(i)) =~= (|i: int| seq_has(offs, i - d))) by {
        assert forall|i: int| #[trigger] b.has(i) == seq_has(offs, i - d) by {
            if seq_has(offs, i - d) {
                assert(u128_bit(piece_shape_spec(sh), i - d));
            }
        }
    }
}

/// Every action that move generation offers passes the check of `validate_action`; for a
/// monomino in the first round, where the corner it is placed on is a legal field.
pub proof fn lemma_possible_action_valid(s: GameState, a: Action)
    requires
        possible_action(s, a),
        !a.is_skip_spec() && a.shape_spec() == 0 && s.ply < 4 ==> legal_field(
            s,
            (s.ply % 4) as int,
            a.destination_spec(),
        ),
    ensures
        action_valid(s, a),
{
    if !a.is_skip_spec() {
        let c = (s.ply % 4) as int;
        let d = a.destination_spec();
        let sh = a.shape_spec();
        let shu = sh as usize;
        let legal = |i: int| legal_field(s, c, i);
        let p = |i: int| placement_field(s, c, i);
        let piece = Bitboard::with_piece_spec(d as u16, shu);
        lemma_with_piece_bits(d as u16, shu);
        lemma_shape_extent(sh);
        lemma_offsets(shu);
        if sh == 0 {
            assert(p(d));
            assert(is_offset(0usize, 0)) by {
                reveal_with_fuel(seq_has, 2);
            }
            assert(d < 420);
            assert(piece.has(d));
            assert forall|i: int| #[trigger] piece.has(i) implies legal_field(s, c, i) by {
                assert(u128_bit(piece_shape_spec(0usize), i - d));
                assert(is_offset(0usize, i - d));
                reveal_with_fuel(seq_has, 2);
                assert(i == d);
            }
        } else {
            lemma_piece_fields(shu, legal, d);
            let jc = choose|j: int| #[trigger] u128_bit(piece_shape_spec(shu), j) && j % 21 == 0;
            assert(legal(d + jc));
            assert(d < 420);
            assert forall|i: int| #[trigger] piece.has(i) implies legal_field(s, c, i) by {
                assert(u128_bit(piece_shape_spec(shu), i - d));
            }
            lemma_touch_cell(shu, p, d);
            lemma_piece_fields(shu, |i: int| !p(i), d);
            let j = choose|j: int| #[trigger] u128_bit(piece_shape_spec(shu), j) && !!p(d + j);
            assert(piece.has(d + j));
        }
        lemma_piece_size(d, shu);
        assert(shape_type_spec(shu).size_spec() == (piece.count_ones_spec() as u8));
    }
}


/// Taking back a possible action just made gives back a position whose pieces agree with its
/// pieces left exactly when they did before the action.
pub proof fn lemma_undo_keeps_integrity(s: GameState, t: GameState, u: GameState, a: Action)
    requires
        possible_action(s, a),
        action_done(s, t, a),
        action_undone(t, u, a),
    ensures
        integrity(u) == integrity(s),
        pieces_recognised(u) == pieces_recognised(s),
{
    lemma_undo_restores(s, t, u, a);
    if integrity(s) {
        lemma_same_integrity(s, u);
    }
    if integrity(u) {
        lemma_same_integrity(u, s);
    }
}

/// Integrity reads only the boards and the pieces left.
pub(crate) proof fn lemma_same_integrity(s: GameState, u: GameState)
    requires
        u.board == s.board,
        u.pieces_left == s.pieces_left,
        integrity(s),
    ensures
        integrity(u),
{
    assert forall|c: int, k: int| 0 <= c < 4 && 0 <= k < 21 implies #[trigger] u.pieces_left[k][c]
        == !has_type_upto(pieces_from(u.board[c], 512), k, pieces_from(u.board[c], 512).len() as int) by {
        assert(u.board[c] == s.board[c]);
        assert(s.pieces_left[k][c] == !has_type_upto(pieces_from(s.board[c], 512), k, pieces_from(s.board[c], 512).len() as int));
    }
    assert forall|c: int| 0 <= c < 4 implies #[trigger] used_size(u, c, 21) == u.board[c].count_ones_spec() by {
        lemma_used_size_same(s, u, c, 21);
        assert(used_size(s, c, 21) == s.board[c].count_ones_spec());
    }
}

pub(crate) proof fn lemma_used_size_same(s: GameState, u: GameState, c: int, n: nat)
    requires
        u.pieces_left == s.pieces_left,
    ensures
        used_size(u, c, n) == used_size(s, c, n),
    decreases n,
{
    if n > 0 {
        lemma_used_size_same(s, u, c, (n - 1) as nat);
    }
}


proof fn lemma_first_shape_found(b: Bitboard, d: u16, s: nat)
    ensures
        first_shape(b, d, s) < 91 ==> Bitboard::with_piece_spec(d, first_shape(b, d, s) as usize) == b,
    decreases 91 - s,
{
    if s < 91 && Bitboard::with_piece_spec(d, s as usize) != b {
        lemma_first_shape_found(b, d, s + 1);
    }
}

/// A board read as a set action is exactly the board of that action's piece: the empty board
/// and every board that is not one piece read as a skip.
pub proof fn lemma_from_bitboard_exact(b: Bitboard)
    ensures
        b == Bitboard(0, 0, 0, 0) ==> action_of_board(b).is_skip_spec(),
        !action_of_board(b).is_skip_spec() ==> b == Bitboard::with_piece_spec(
            action_of_board(b).destination_spec() as u16,
            action_of_board(b).shape_spec() as usize,
        ),
{
    let a = action_of_board(b);
    if !a.is_skip_spec() {
        crate::bitboard::lemma_empty_iff(b);
        let i = choose|i: int| #[trigger] b.has(i);
        assert(0 <= i < 512);
        lemma_min_col(b, 512);
        lemma_min_row(b, 512);
        assert(min_col(b, 512) <= i % 21);
        assert(min_row(b, 512) <= i / 21);
        let d = top_left(b);
        assert(d <= i);
        assert(0 <= d);
        let du = d as u16;
        let s = first_shape(b, du, 0);
        lemma_first_shape_found(b, du, 0);
        let shu = s as u16;
        assert(((du << 7u16) | shu) == du * 128 + shu) by (bit_vector)
            requires du < 512, shu < 128;
        assert(a.destination_spec() == d);
        assert(a.shape_spec() == s);
    }
}

/// A piece whose fields all lie on the 20x20 board and which has as many fields as its piece
/// type is read back as the action that placed it.
pub proof fn lemma_piece_read_back(d: int, sh: int)
    requires
        0 <= d < 512,
        0 <= sh < 91,
        forall|i: int| #[trigger] Bitboard::with_piece_spec(d as u16, sh as usize).has(i) ==> is_valid_field(i),
        Bitboard::with_piece_spec(d as u16, sh as usize).count_ones_spec() == shape_type_spec(sh as usize).size_spec(),
    ensures
        action_of_board(Bitboard::with_piece_spec(d as u16, sh as usize)) == Action((d * 128 + sh) as u16),
{
    let b = Bitboard::with_piece_spec(d as u16, sh as usize);
    let w = piece_shape_spec(sh as usize);
    lemma_with_piece_bits(d as u16, sh as usize);
    assert(piece_origin(d as u16) == d);
    lemma_shape_extent(sh);
    lemma_offsets(sh as usize);
    if d >= 420 {
        assert forall|i: int| !#[trigger] b.has(i) by {
            if b.has(i) {
                assert(is_valid_field(i));
            }
        }
        lemma_count_board(b);
        lemma_count_nothing(|i: int| b.has(i));
        assert(shape_offsets(sh as usize).len() >= 1) by {
            let j = choose|j: int| #[trigger] u128_bit(w, j) && 0 <= j < 21;
            lemma_seq_has_index(shape_offsets(sh as usize), j);
        }
    }
    assert(d < 420);
    let valid = |i: int| is_valid_field(i);
    lemma_piece_fields(sh as usize, valid, d);
    assert forall|j: int| #[trigger] u128_bit(w, j) implies valid(d + j) by {
        assert(b.has(d + j));
    }
    lemma_from_bitboard_roundtrip(d, sh);
}


/// The piece type of a shape covers as many fields as the shape's board has, the shapes 23 to 30
/// are exactly those of the L-pentomino, and shape 0 is the monomino.
pub proof fn lemma_shape_types(sh: usize)
    requires
        sh < 91,
    ensures
        shape_type_spec(sh).size_spec() == Bitboard::with_piece_spec(0, sh).count_ones_spec(),
        (23 <= sh <= 30) == (shape_type_spec(sh) == crate::piece_type::PieceType::LPentomino),
        shape_type_spec(0) == crate::piece_type::PieceType::Monomino,
{
    lemma_piece_size(0, sh);
}


#[verifier::rlimit(80)]
proof fn lemma_inner_cell_0(sh: usize, j: int)
    requires
        0 <= sh < 23,
        is_offset(sh, j),
        !shape_touches(sh, |i: int| i == j, 0),
    ensures
        is_offset(sh, j - 1) || is_offset(sh, j - 21),
        is_offset(sh, j + 1) || is_offset(sh, j - 21),
        is_offset(sh, j - 1) || is_offset(sh, j + 21),
        is_offset(sh, j + 1) || is_offset(sh, j + 21),
{
    reveal_with_fuel(seq_has, 6);
    let pj = |i: int| i == j;
    if sh == 0 {
        assert(shape_offsets(sh) == shape_offsets(0usize));
        assert(shape_touches(sh, pj, 0) == shape_touches(0usize, pj, 0));
    } else if sh == 1 {
        assert(shape_offsets(sh) == shape_offsets(1usize));
        assert(shape_touches(sh, pj, 0) == shape_touches(1usize, pj, 0));
    } else if sh == 2 {
        assert(shape_offsets(sh) == shape_offsets(2usize));
        assert(shape_touches(sh, pj, 0) == shape_touches(2usize, pj, 0));
    } else if sh == 3 {
        assert(shape_offsets(sh) == shape_offsets(3usize));
        assert(shape_touches(sh, pj, 0) == shape_touches(3usize, pj, 0));
    } else if sh == 4 {
        assert(shape_offsets(sh) == shape_offsets(4usize));
        assert(shape_touches(sh, pj, 0) == shape_touches(4usize, pj, 0));
    } else if sh == 5 {
        assert(shape_offsets(sh) == shape_offsets(5usize));
        assert(shape_touches(sh, pj, 0) == shape_touches(5usize, pj, 0));
    } else if sh == 6 {
        assert(shape_offsets(sh) == shape_offsets(6usize));
        assert(shape_touches(sh, pj, 0) == shape_touches(6usize, pj, 0));
    } else if sh == 7 {
        assert(shape_offsets(sh) == shape_offsets(7usize));
        assert(shape_touches(sh, pj, 0) == shape_touches(7usize, pj, 0));
    } else if sh == 8 {
        assert(shape_offsets(sh) == shape_offsets(8usize));
        assert(shape_touches(sh, pj, 0) == shape_touches(8usize, pj, 0));
    } else if sh == 9 {
        assert(shape_offsets(sh) == shape_offsets(9usize));
        assert(shape_touches(sh, pj, 0) == shape_touches(9usize, pj, 0));
    } else if sh == 10 {
        assert(shape_offsets(sh) == shape_offsets(10usize));
        assert(shape_touches(sh, pj, 0) == shape_touches(10usize, pj, 0));
    } else if sh == 11 {
        assert(shape_offsets(sh) == shape_offsets(11usize));
        assert(shape_touches(sh, pj, 0) == shape_touches(11usize, pj, 0));
    } else if sh == 12 {
        assert(shape_offsets(sh) == shape_offsets(12usize));
        assert(shape_touches(sh, pj, 0) == shape_touches(12usize, pj, 0));
    } else if sh == 13 {
        assert(shape_offsets(sh) == shape_offsets(13usize));
        assert(shape_touches(sh, pj, 0) == shape_touches(13usize, pj, 0));
    } else if sh == 14 {
        assert(shape_offsets(sh) == shape_offsets(14usize));
        assert(shape_touches(sh, pj, 0) == shape_touches(14usize, pj, 0));
    } else if sh == 15 {
        assert(shape_offsets(sh) == shape_offsets(15usize));
        assert(shape_touches(sh, pj, 0) == shape_touches(15usize, pj, 0));
    } else if sh == 16 {
        assert(shape_offsets(sh) == shape_offsets(16usize));
        assert(shape_touches(sh, pj, 0) == shape_touches(16usize, pj, 0));
    } else if sh == 17 {
        assert(shape_offsets(sh) == shape_offsets(17usize));
        assert(shape_touches(sh, pj, 0) == shape_touches(17usize, pj, 0));
    } else if sh == 18 {
        assert(shape_offsets(sh) == shape_offsets(18usize));
        assert(shape_touches(sh, pj, 0) == shape_touches(18usize, pj, 0));
    } else if sh == 19 {
        assert(shape_offsets(sh) == shape_offsets(19usize));
        assert(shape_touches(sh, pj, 0) == shape_touches(19usize, pj, 0));
    } else if sh == 20 {
        assert(shape_offsets(sh) == shape_offsets(20usize));
        assert(shape_touches(sh, pj, 0) == shape_touches(20usize, pj, 0));
    } else if sh == 21 {
        assert(shape_offsets(sh) == shape_offsets(21usize));
        assert(shape_touches(sh, pj, 0) == shape_touches(21usize, pj, 0));
    } else if sh == 22 {
        assert(shape_offsets(sh) == shape_offsets(22usize));
        assert(shape_touches(sh, pj, 0) == shape_touches(22usize, pj, 0));
    }
}

#[verifier::rlimit(80)]
proof fn lemma_inner_cell_1(sh: usize, j: int)
    requires
        23 <= sh < 46,
        is_offset(sh, j),
        !shape_touches(sh, |i: int| i == j, 0),
    ensures
        is_offset(sh, j - 1) || is_offset(sh, j - 21),
        is_offset(sh, j + 1) || is_offset(sh, j - 21),
        is_offset(sh, j - 1) || is_offset(sh, j + 21),
        is_offset(sh, j + 1) || is_offset(sh, j + 21),
{
    reveal_with_fuel(seq_has, 6);
    let pj = |i: int| i == j;
    if sh == 23 {
        assert(shape_offsets(sh) == shape_offsets(23usize));
        assert(shape_touches(sh, pj, 0) == shape_touches(23usize, pj, 0));
    } else if sh == 24 {
        assert(shape_offsets(sh) == shape_offsets(24usize));
        assert(shape_touches(sh, pj, 0) == shape_touches(24usize, pj, 0));
    } else if sh == 25 {
        assert(shape_offsets(sh) == shape_offsets(25usize));
        assert(shape_touches(sh, pj, 0) == shape_touches(25usize, pj, 0));
    } else if sh == 26 {
        assert(shape_offsets(sh) == shape_offsets(26usize));
        assert(shape_touches(sh, pj, 0) == shape_touches(26usize, pj, 0));
    } else if sh == 27 {
        assert(shape_offsets(sh) == shape_offsets(27usize));
        assert(shape_touches(sh, pj, 0) == shape_touches(27usize, pj, 0));
    } else if sh == 28 {
        assert(shape_offsets(sh) == shape_offsets(28usize));
        assert(shape_touches(sh, pj, 0) == shape_touches(28usize, pj, 0));
    } else if sh == 29 {
        assert(shape_offsets(sh) == shape_offsets(29usize));
        assert(shape_touches(sh, pj, 0) == shape_touches(29usize, pj, 0));
    } else if sh == 30 {
        assert(shape_offsets(sh) == shape_offsets(30usize));
        assert(shape_touches(sh, pj, 0) == shape_touches(30usize, pj, 0));
    } else if sh == 31 {
        assert(shape_offsets(sh) == shape_offsets(31usize));
        assert(shape_touches(sh, pj, 0) == shape_touches(31usize, pj, 0));
    } else if sh == 32 {
        assert(shape_offsets(sh) == shape_offsets(32usize));
        assert(shape_touches(sh, pj, 0) == shape_touches(32usize, pj, 0));
    } else if sh == 33 {
        assert(shape_offsets(sh) == shape_offsets(33usize));
        assert(shape_touches(sh, pj, 0) == shape_touches(33usize, pj, 0));
    } else if sh == 34 {
        assert(shape_offsets(sh) == shape_offsets(34usize));
        assert(shape_touches(sh, pj, 0) == shape_touches(34usize, pj, 0));
    } else if sh == 35 {
        assert(shape_offsets(sh) == shape_offsets(35usize));
        assert(shape_touches(sh, pj, 0) == shape_touches(35usize, pj, 0));
    } else if sh == 36 {
        assert(shape_offsets(sh) == shape_offsets(36usize));
        assert(shape_touches(sh, pj, 0) == shape_touches(36usize, pj, 0));
    } else if sh == 37 {
        assert(shape_offsets(sh) == shape_offsets(37usize));
        assert(shape_touches(sh, pj, 0) == shape_touches(37usize, pj, 0));
    } else if sh == 38 {
        assert(shape_offsets(sh) == shape_offsets(38usize));
        assert(shape_touches(sh, pj, 0) == shape_touches(38usize, pj, 0));
    } else if sh == 39 {
        assert(shape_offsets(sh) == shape_offsets(39usize));
        assert(shape_touches(sh, pj, 0) == shape_touches(39usize, pj, 0));
    } else if sh == 40 {
        assert(shape_offsets(sh) == shape_offsets(40usize));
        assert(shape_touches(sh, pj, 0) == shape_touches(40usize, pj, 0));
    } else if sh == 41 {
        assert(shape_offsets(sh) == shape_offsets(41usize));
        assert(shape_touches(sh, pj, 0) == shape_touches(41usize, pj, 0));
    } else if sh == 42 {
        assert(shape_offsets(sh) == shape_offsets(42usize));
        assert(shape_touches(sh, pj, 0) == shape_touches(42usize, pj, 0));
    } else if sh == 43 {
        assert(shape_offsets(sh) == shape_offsets(43usize));
        assert(shape_touches(sh, pj, 0) == shape_touches(43usize, pj, 0));
    } else if sh == 44 {
        assert(shape_offsets(sh) == shape_offsets(44usize));
        assert(shape_touches(sh, pj, 0) == shape_touches(44usize, pj, 0));
    } else if sh == 45 {
        assert(shape_offsets(sh) == shape_offsets(45usize));
        assert(shape_touches(sh, pj, 0) == shape_touches(45usize, pj, 0));
    }
}

#[verifier::rlimit(80)]
proof fn lemma_inner_cell_2(sh: usize, j: int)
    requires
        46 <= sh < 69,
        is_offset(sh, j),
        !shape_touches(sh, |i: int| i == j, 0),
    ensures
        is_offset(sh, j - 1) || is_offset(sh, j - 21),
        is_offset(sh, j + 1) || is_offset(sh, j - 21),
        is_offset(sh, j - 1) || is_offset(sh, j + 21),
        is_offset(sh, j + 1) || is_offset(sh, j + 21),
{
    reveal_with_fuel(seq_has, 6);
    let pj = |i: int| i == j;
    if sh == 46 {
        assert(shape_offsets(sh) == shape_offsets(46usize));
        assert(shape_touches(sh, pj, 0) == shape_touches(46usize, pj, 0));
    } else if sh == 47 {
        assert(shape_offsets(sh) == shape_offsets(47usize));
        assert(shape_touches(sh, pj, 0) == shape_touches(47usize, pj, 0));
    } else if sh == 48 {
        assert(shape_offsets(sh) == shape_offsets(48usize));
        assert(shape_touches(sh, pj, 0) == shape_touches(48usize, pj, 0));
    } else if sh == 49 {
        assert(shape_offsets(sh) == shape_offsets(49usize));
        assert(shape_touches(sh, pj, 0) == shape_touches(49usize, pj, 0));
    } else if sh == 50 {
        assert(shape_offsets(sh) == shape_offsets(50usize));
        assert(shape_touches(sh, pj, 0) == shape_touches(50usize, pj, 0));
    } else if sh == 51 {
        assert(shape_offsets(sh) == shape_offsets(51usize));
        assert(shape_touches(sh, pj, 0) == shape_touches(51usize, pj, 0));
    } else if sh == 52 {
        assert(shape_offsets(sh) == shape_offsets(52usize));
        assert(shape_touches(sh, pj, 0) == shape_touches(52usize, pj, 0));
    } else if sh == 53 {
        assert(shape_offsets(sh) == shape_offsets(53usize));
        assert(shape_touches(sh, pj, 0) == shape_touches(53usize, pj, 0));
    } else if sh == 54 {
        assert(shape_offsets(sh) == shape_offsets(54usize));
        assert(shape_touches(sh, pj, 0) == shape_touches(54usize, pj, 0));
    } else if sh == 55 {
        assert(shape_offsets(sh) == shape_offsets(55usize));
        assert(shape_touches(sh, pj, 0) == shape_touches(55usize, pj, 0));
    } else if sh == 56 {
        assert(shape_offsets(sh) == shape_offsets(56usize));
        assert(shape_touches(sh, pj, 0) == shape_touches(56usize, pj, 0));
    } else if sh == 57 {
        assert(shape_offsets(sh) == shape_offsets(57usize));
        assert(shape_touches(sh, pj, 0) == shape_touches(57usize, pj, 0));
    } else if sh == 58 {
        assert(shape_offsets(sh) == shape_offsets(58usize));
        assert(shape_touches(sh, pj, 0) == shape_touches(58usize, pj, 0));
    } else if sh == 59 {
        assert(shape_offsets(sh) == shape_offsets(59usize));
        assert(shape_touches(sh, pj, 0) == shape_touches(59usize, pj, 0));
    } else if sh == 60 {
        assert(shape_offsets(sh) == shape_offsets(60usize));
        assert(shape_touches(sh, pj, 0) == shape_touches(60usize, pj, 0));
    } else if sh == 61 {
        assert(shape_offsets(sh) == shape_offsets(61usize));
        assert(shape_touches(sh, pj, 0) == shape_touches(61usize, pj, 0));
    } else if sh == 62 {
        assert(shape_offsets(sh) == shape_offsets(62usize));
        assert(shape_touches(sh, pj, 0) == shape_touches(62usize, pj, 0));
    } else if sh == 63 {
        assert(shape_offsets(sh) == shape_offsets(63usize));
        assert(shape_touches(sh, pj, 0) == shape_touches(63usize, pj, 0));
    } else if sh == 64 {
        assert(shape_offsets(sh) == shape_offsets(64usize));
        assert(shape_touches(sh, pj, 0) == shape_touches(64usize, pj, 0));
    } else if sh == 65 {
        assert(shape_offsets(sh) == shape_offsets(65usize));
        assert(shape_touches(sh, pj, 0) == shape_touches(65usize, pj, 0));
    } else if sh == 66 {
        assert(shape_offsets(sh) == shape_offsets(66usize));
        assert(shape_touches(sh, pj, 0) == shape_touches(66usize, pj, 0));
    } else if sh == 67 {
        assert(shape_offsets(sh) == shape_offsets(67usize));
        assert(shape_touches(sh, pj, 0) == shape_touches(67usize, pj, 0));
    } else if sh == 68 {
        assert(shape_offsets(sh) == shape_offsets(68usize));
        assert(shape_touches(sh, pj, 0) == shape_touches(68usize, pj, 0));
    }
}

#[verifier::rlimit(80)]
proof fn lemma_inner_cell_3(sh: usize, j: int)
    requires
        69 <= sh < 91,
        is_offset(sh, j),
        !shape_touches(sh, |i: int| i == j, 0),
    ensures
        is_offset(sh, j - 1) || is_offset(sh, j - 21),
        is_offset(sh, j + 1) || is_offset(sh, j - 21),
        is_offset(sh, j - 1) || is_offset(sh, j + 21),
        is_offset(sh, j + 1) || is_offset(sh, j + 21),
{
    reveal_with_fuel(seq_has, 6);
    let pj = |i: int| i == j;
    if sh == 69 {
        assert(shape_offsets(sh) == shape_offsets(69usize));
        assert(shape_touches(sh, pj, 0) == shape_touches(69usize, pj, 0));
    } else if sh == 70 {
        assert(shape_offsets(sh) == shape_offsets(70usize));
        assert(shape_touches(sh, pj, 0) == shape_touches(70usize, pj, 0));
    } else if sh == 71 {
        assert(shape_offsets(sh) == shape_offsets(71usize));
        assert(shape_touches(sh, pj, 0) == shape_touches(71usize, pj, 0));
    } else if sh == 72 {
        assert(shape_offsets(sh) == shape_offsets(72usize));
        assert(shape_touches(sh, pj, 0) == shape_touches(72usize, pj, 0));
    } else if sh == 73 {
        assert(shape_offsets(sh) == shape_offsets(73usize));
        assert(shape_touches(sh, pj, 0) == shape_touches(73usize, pj, 0));
    } else if sh == 74 {
        assert(shape_offsets(sh) == shape_offsets(74usize));
        assert(shape_touches(sh, pj, 0) == shape_touches(74usize, pj, 0));
    } else if sh == 75 {
        assert(shape_offsets(sh) == shape_offsets(75usize));
        assert(shape_touches(sh, pj, 0) == shape_touches(75usize, pj, 0));
    } else if sh == 76 {
        assert(shape_offsets(sh) == shape_offsets(76usize));
        assert(shape_touches(sh, pj, 0) == shape_touches(76usize, pj, 0));
    } else if sh == 77 {
        assert(shape_offsets(sh) == shape_offsets(77usize));
        assert(shape_touches(sh, pj, 0) == shape_touches(77usize, pj, 0));
    } else if sh == 78 {
        assert(shape_offsets(sh) == shape_offsets(78usize));
        assert(shape_touches(sh, pj, 0) == shape_touches(78usize, pj, 0));
    } else if sh == 79 {
        assert(shape_offsets(sh) == shape_offsets(79usize));
        assert(shape_touches(sh, pj, 0) == shape_touches(79usize, pj, 0));
    } else if sh == 80 {
        assert(shape_offsets(sh) == shape_offsets(80usize));
        assert(shape_touches(sh, pj, 0) == shape_touches(80usize, pj, 0));
    } else if sh == 81 {
        assert(shape_offsets(sh) == shape_offsets(81usize));
        assert(shape_touches(sh, pj, 0) == shape_touches(81usize, pj, 0));
    } else if sh == 82 {
        assert(shape_offsets(sh) == shape_offsets(82usize));
        assert(shape_touches(sh, pj, 0) == shape_touches(82usize, pj, 0));
    } else if sh == 83 {
        assert(shape_offsets(sh) == shape_offsets(83usize));
        assert(shape_touches(sh, pj, 0) == shape_touches(83usize, pj, 0));
    } else if sh == 84 {
        assert(shape_offsets(sh) == shape_offsets(84usize));
        assert(shape_touches(sh, pj, 0) == shape_touches(84usize, pj, 0));
    } else if sh == 85 {
        assert(shape_offsets(sh) == shape_offsets(85usize));
        assert(shape_touches(sh, pj, 0) == shape_touches(85usize, pj, 0));
    } else if sh == 86 {
        assert(shape_offsets(sh) == shape_offsets(86usize));
        assert(shape_touches(sh, pj, 0) == shape_touches(86usize, pj, 0));
    } else if sh == 87 {
        assert(shape_offsets(sh) == shape_offsets(87usize));
        assert(shape_touches(sh, pj, 0) == shape_touches(87usize, pj, 0));
    } else if sh == 88 {
        assert(shape_offsets(sh) == shape_offsets(88usize));
        assert(shape_touches(sh, pj, 0) == shape_touches(88usize, pj, 0));
    } else if sh == 89 {
        assert(shape_offsets(sh) == shape_offsets(89usize));
        assert(shape_touches(sh, pj, 0) == shape_touches(89usize, pj, 0));
    } else if sh == 90 {
        assert(shape_offsets(sh) == shape_offsets(90usize));
        assert(shape_touches(sh, pj, 0) == shape_touches(90usize, pj, 0));
    }
}

/// A field of a shape that move generation does not test against the placement fields has,
/// towards each corner, a field of the shape beside it.
proof fn lemma_inner_cell(sh: usize, j: int)
    requires
        sh < 91,
        is_offset(sh, j),
        !shape_touches(sh, |i: int| i == j, 0),
    ensures
        is_offset(sh, j - 1) || is_offset(sh, j - 21),
        is_offset(sh, j + 1) || is_offset(sh, j - 21),
        is_offset(sh, j - 1) || is_offset(sh, j + 21),
        is_offset(sh, j + 1) || is_offset(sh, j + 21),
{
    if sh < 23 {
        lemma_inner_cell_0(sh, j);
    } else if sh < 46 {
        lemma_inner_cell_1(sh, j);
    } else if sh < 69 {
        lemma_inner_cell_2(sh, j);
    } else {
        lemma_inner_cell_3(sh, j);
    }
}


#[verifier::rlimit(60)]
proof fn lemma_tested_cell_0(sh: usize, j: int, p: spec_fn(int) -> bool, d: int)
    requires
        0 <= sh < 23,
        shape_touches(sh, |i: int| i == j, 0),
        p(d + j),
    ensures
        shape_touches(sh, p, d),
{
    let pj = |i: int| i == j;
    if sh == 0 {
        assert(shape_touches(sh, pj, 0) == shape_touches(0usize, pj, 0));
        assert(shape_touches(sh, p, d) == shape_touches(0usize, p, d));
    } else if sh == 1 {
        assert(shape_touches(sh, pj, 0) == shape_touches(1usize, pj, 0));
        assert(shape_touches(sh, p, d) == shape_touches(1usize, p, d));
    } else if sh == 2 {
        assert(shape_touches(sh, pj, 0) == shape_touches(2usize, pj, 0));
        assert(shape_touches(sh, p, d) == shape_touches(2usize, p, d));
    } else if sh == 3 {
        assert(shape_touches(sh, pj, 0) == shape_touches(3usize, pj, 0));
        assert(shape_touches(sh, p, d) == shape_touches(3usize, p, d));
    } else if sh == 4 {
        assert(shape_touches(sh, pj, 0) == shape_touches(4usize, pj, 0));
        assert(shape_touches(sh, p, d) == shape_touches(4usize, p, d));
    } else if sh == 5 {
        assert(shape_touches(sh, pj, 0) == shape_touches(5usize, pj, 0));
        assert(shape_touches(sh, p, d) == shape_touches(5usize, p, d));
    } else if sh == 6 {
        assert(shape_touches(sh, pj, 0) == shape_touches(6usize, pj, 0));
        assert(shape_touches(sh, p, d) == shape_touches(6usize, p, d));
    } else if sh == 7 {
        assert(shape_touches(sh, pj, 0) == shape_touches(7usize, pj, 0));
        assert(shape_touches(sh, p, d) == shape_touches(7usize, p, d));
    } else if sh == 8 {
        assert(shape_touches(sh, pj, 0) == shape_touches(8usize, pj, 0));
        assert(shape_touches(sh, p, d) == shape_touches(8usize, p, d));
    } else if sh == 9 {
        assert(shape_touches(sh, pj, 0) == shape_touches(9usize, pj, 0));
        assert(shape_touches(sh, p, d) == shape_touches(9usize, p, d));
    } else if sh == 10 {
        assert(shape_touches(sh, pj, 0) == shape_touches(10usize, pj, 0));
        assert(shape_touches(sh, p, d) == shape_touches(10usize, p, d));
    } else if sh == 11 {
        assert(shape_touches(sh, pj, 0) == shape_touches(11usize, pj, 0));
        assert(shape_touches(sh, p, d) == shape_touches(11usize, p, d));
    } else if sh == 12 {
        assert(shape_touches(sh, pj, 0) == shape_touches(12usize, pj, 0));
        assert(shape_touches(sh, p, d) == shape_touches(12usize, p, d));
    } else if sh == 13 {
        assert(shape_touches(sh, pj, 0) == shape_touches(13usize, pj, 0));
        assert(shape_touches(sh, p, d) == shape_touches(13usize, p, d));
    } else if sh == 14 {
        assert(shape_touches(sh, pj, 0) == shape_touches(14usize, pj, 0));
        assert(shape_touches(sh, p, d) == shape_touches(14usize, p, d));
    } else if sh == 15 {
        assert(shape_touches(sh, pj, 0) == shape_touches(15usize, pj, 0));
        assert(shape_touches(sh, p, d) == shape_touches(15usize, p, d));
    } else if sh == 16 {
        assert(shape_touches(sh, pj, 0) == shape_touches(16usize, pj, 0));
        assert(shape_touches(sh, p, d) == shape_touches(16usize, p, d));
    } else if sh == 17 {
        assert(shape_touches(sh, pj, 0) == shape_touches(17usize, pj, 0));
        assert(shape_touches(sh, p, d) == shape_touches(17usize, p, d));
    } else if sh == 18 {
        assert(shape_touches(sh, pj, 0) == shape_touches(18usize, pj, 0));
        assert(shape_touches(sh, p, d) == shape_touches(18usize, p, d));
    } else if sh == 19 {
        assert(shape_touches(sh, pj, 0) == shape_touches(19usize, pj, 0));
        assert(shape_touches(sh, p, d) == shape_touches(19usize, p, d));
    } else if sh == 20 {
        assert(shape_touches(sh, pj, 0) == shape_touches(20usize, pj, 0));
        assert(shape_touches(sh, p, d) == shape_touches(20usize, p, d));
    } else if sh == 21 {
        assert(shape_touches(sh, pj, 0) == shape_touches(21usize, pj, 0));
        assert(shape_touches(sh, p, d) == shape_touches(21usize, p, d));
    } else if sh == 22 {
        assert(shape_touches(sh, pj, 0) == shape_touches(22usize, pj, 0));
        assert(shape_touches(sh, p, d) == shape_touches(22usize, p, d));
    }
}

#[verifier::rlimit(60)]
proof fn lemma_tested_cell_1(sh: usize, j: int, p: spec_fn(int) -> bool, d: int)
    requires
        23 <= sh < 46,
        shape_touches(sh, |i: int| i == j, 0),
        p(d + j),
    ensures
        shape_touches(sh, p, d),
{
    let pj = |i: int| i == j;
    if sh == 23 {
        assert(shape_touches(sh, pj, 0) == shape_touches(23usize, pj, 0));
        assert(shape_touches(sh, p, d) == shape_touches(23usize, p, d));
    } else if sh == 24 {
        assert(shape_touches(sh, pj, 0) == shape_touches(24usize, pj, 0));
        assert(shape_touches(sh, p, d) == shape_touches(24usize, p, d));
    } else if sh == 25 {
        assert(shape_touches(sh, pj, 0) == shape_touches(25usize, pj, 0));
        assert(shape_touches(sh, p, d) == shape_touches(25usize, p, d));
    } else if sh == 26 {
        assert(shape_touches(sh, pj, 0) == shape_touches(26usize, pj, 0));
        assert(shape_touches(sh, p, d) == shape_touches(26usize, p, d));
    } else if sh == 27 {
        assert(shape_touches(sh, pj, 0) == shape_touches(27usize, pj, 0));
        assert(shape_touches(sh, p, d) == shape_touches(27usize, p, d));
    } else if sh == 28 {
        assert(shape_touches(sh, pj, 0) == shape_touches(28usize, pj, 0));
        assert(shape_touches(sh, p, d) == shape_touches(28usize, p, d));
    } else if sh == 29 {
        assert(shape_touches(sh, pj, 0) == shape_touches(29usize, pj, 0));
        assert(shape_touches(sh, p, d) == shape_touches(29usize, p, d));
    } else if sh == 30 {
        assert(shape_touches(sh, pj, 0) == shape_touches(30usize, pj, 0));
        assert(shape_touches(sh, p, d) == shape_touches(30usize, p, d));
    } else if sh == 31 {
        assert(shape_touches(sh, pj, 0) == shape_touches(31usize, pj, 0));
        assert(shape_touches(sh, p, d) == shape_touches(31usize, p, d));
    } else if sh == 32 {
        assert(shape_touches(sh, pj, 0) == shape_touches(32usize, pj, 0));
        assert(shape_touches(sh, p, d) == shape_touches(32usize, p, d));
    } else if sh == 33 {
        assert(shape_touches(sh, pj, 0) == shape_touches(33usize, pj, 0));
        assert(shape_touches(sh, p, d) == shape_touches(33usize, p, d));
    } else if sh == 34 {
        assert(shape_touches(sh, pj, 0) == shape_touches(34usize, pj, 0));
        assert(shape_touches(sh, p, d) == shape_touches(34usize, p, d));
    } else if sh == 35 {
        assert(shape_touches(sh, pj, 0) == shape_touches(35usize, pj, 0));
        assert(shape_touches(sh, p, d) == shape_touches(35usize, p, d));
    } else if sh == 36 {
        assert(shape_touches(sh, pj, 0) == shape_touches(36usize, pj, 0));
        assert(shape_touches(sh, p, d) == shape_touches(36usize, p, d));
    } else if sh == 37 {
        assert(shape_touches(sh, pj, 0) == shape_touches(37usize, pj, 0));
        assert(shape_touches(sh, p, d) == shape_touches(37usize, p, d));
    } else if sh == 38 {
        assert(shape_touches(sh, pj, 0) == shape_touches(38usize, pj, 0));
        assert(shape_touches(sh, p, d) == shape_touches(38usize, p, d));
    } else if sh == 39 {
        assert(shape_touches(sh, pj, 0) == shape_touches(39usize, pj, 0));
        assert(shape_touches(sh, p, d) == shape_touches(39usize, p, d));
    } else if sh == 40 {
        assert(shape_touches(sh, pj, 0) == shape_touches(40usize, pj, 0));
        assert(shape_touches(sh, p, d) == shape_touches(40usize, p, d));
    } else if sh == 41 {
        assert(shape_touches(sh, pj, 0) == shape_touches(41usize, pj, 0));
        assert(shape_touches(sh, p, d) == shape_touches(41usize, p, d));
    } else if sh == 42 {
        assert(shape_touches(sh, pj, 0) == shape_touches(42usize, pj, 0));
        assert(shape_touches(sh, p, d) == shape_touches(42usize, p, d));
    } else if sh == 43 {
        assert(shape_touches(sh, pj, 0) == shape_touches(43usize, pj, 0));
        assert(shape_touches(sh, p, d) == shape_touches(43usize, p, d));
    } else if sh == 44 {
        assert(shape_touches(sh, pj, 0) == shape_touches(44usize, pj, 0));
        assert(shape_touches(sh, p, d) == shape_touches(44usize, p, d));
    } else if sh == 45 {
        assert(shape_touches(sh, pj, 0) == shape_touches(45usize, pj, 0));
        assert(shape_touches(sh, p, d) == shape_touches(45usize, p, d));
    }
}

#[verifier::rlimit(60)]
proof fn lemma_tested_cell_2(sh: usize, j: int, p: spec_fn(int) -> bool, d: int)
    requires
        46 <= sh < 69,
        shape_touches(sh, |i: int| i == j, 0),
        p(d + j),
    ensures
        shape_touches(sh, p, d),
{
    let pj = |i: int| i == j;
    if sh == 46 {
        assert(shape_touches(sh, pj, 0) == shape_touches(46usize, pj, 0));
        assert(shape_touches(sh, p, d) == shape_touches(46usize, p, d));
    } else if sh == 47 {
        assert(shape_touches(sh, pj, 0) == shape_touches(47usize, pj, 0));
        assert(shape_touches(sh, p, d) == shape_touches(47usize, p, d));
    } else if sh == 48 {
        assert(shape_touches(sh, pj, 0) == shape_touches(48usize, pj, 0));
        assert(shape_touches(sh, p, d) == shape_touches(48usize, p, d));
    } else if sh == 49 {
        assert(shape_touches(sh, pj, 0) == shape_touches(49usize, pj, 0));
        assert(shape_touches(sh, p, d) == shape_touches(49usize, p, d));
    } else if sh == 50 {
        assert(shape_touches(sh, pj, 0) == shape_touches(50usize, pj, 0));
        assert(shape_touches(sh, p, d) == shape_touches(50usize, p, d));
    } else if sh == 51 {
        assert(shape_touches(sh, pj, 0) == shape_touches(51usize, pj, 0));
        assert(shape_touches(sh, p, d) == shape_touches(51usize, p, d));
    } else if sh == 52 {
        assert(shape_touches(sh, pj, 0) == shape_touches(52usize, pj, 0));
        assert(shape_touches(sh, p, d) == shape_touches(52usize, p, d));
    } else if sh == 53 {
        assert(shape_touches(sh, pj, 0) == shape_touches(53usize, pj, 0));
        assert(shape_touches(sh, p, d) == shape_touches(53usize, p, d));
    } else if sh == 54 {
        assert(shape_touches(sh, pj, 0) == shape_touches(54usize, pj, 0));
        assert(shape_touches(sh, p, d) == shape_touches(54usize, p, d));
    } else if sh == 55 {
        assert(shape_touches(sh, pj, 0) == shape_touches(55usize, pj, 0));
        assert(shape_touches(sh, p, d) == shape_touches(55usize, p, d));
    } else if sh == 56 {
        assert(shape_touches(sh, pj, 0) == shape_touches(56usize, pj, 0));
        assert(shape_touches(sh, p, d) == shape_touches(56usize, p, d));
    } else if sh == 57 {
        assert(shape_touches(sh, pj, 0) == shape_touches(57usize, pj, 0));
        assert(shape_touches(sh, p, d) == shape_touches(57usize, p, d));
    } else if sh == 58 {
        assert(shape_touches(sh, pj, 0) == shape_touches(58usize, pj, 0));
        assert(shape_touches(sh, p, d) == shape_touches(58usize, p, d));
    } else if sh == 59 {
        assert(shape_touches(sh, pj, 0) == shape_touches(59usize, pj, 0));
        assert(shape_touches(sh, p, d) == shape_touches(59usize, p, d));
    } else if sh == 60 {
        assert(shape_touches(sh, pj, 0) == shape_touches(60usize, pj, 0));
        assert(shape_touches(sh, p, d) == shape_touches(60usize, p, d));
    } else if sh == 61 {
        assert(shape_touches(sh, pj, 0) == shape_touches(61usize, pj, 0));
        assert(shape_touches(sh, p, d) == shape_touches(61usize, p, d));
    } else if sh == 62 {
        assert(shape_touches(sh, pj, 0) == shape_touches(62usize, pj, 0));
        assert(shape_touches(sh, p, d) == shape_touches(62usize, p, d));
    } else if sh == 63 {
        assert(shape_touches(sh, pj, 0) == shape_touches(63usize, pj, 0));
        assert(shape_touches(sh, p, d) == shape_touches(63usize, p, d));
    } else if sh == 64 {
        assert(shape_touches(sh, pj, 0) == shape_touches(64usize, pj, 0));
        assert(shape_touches(sh, p, d) == shape_touches(64usize, p, d));
    } else if sh == 65 {
        assert(shape_touches(sh, pj, 0) == shape_touches(65usize, pj, 0));
        assert(shape_touches(sh, p, d) == shape_touches(65usize, p, d));
    } else if sh == 66 {
        assert(shape_touches(sh, pj, 0) == shape_touches(66usize, pj, 0));
        assert(shape_touches(sh, p, d) == shape_touches(66usize, p, d));
    } else if sh == 67 {
        assert(shape_touches(sh, pj, 0) == shape_touches(67usize, pj, 0));
        assert(shape_touches(sh, p, d) == shape_touches(67usize, p, d));
    } else if sh == 68 {
        assert(shape_touches(sh, pj, 0) == shape_touches(68usize, pj, 0));
        assert(shape_touches(sh, p, d) == shape_touches(68usize, p, d));
    }
}

#[verifier::rlimit(60)]
proof fn lemma_tested_cell_3(sh: usize, j: int, p: spec_fn(int) -> bool, d: int)
    requires
        69 <= sh < 91,
        shape_touches(sh, |i: int| i == j, 0),
        p(d + j),
    ensures
        shape_touches(sh, p, d),
{
    let pj = |i: int| i == j;
    if sh == 69 {
        assert(shape_touches(sh, pj, 0) == shape_touches(69usize, pj, 0));
        assert(shape_touches(sh, p, d) == shape_touches(69usize, p, d));
    } else if sh == 70 {
        assert(shape_touches(sh, pj, 0) == shape_touches(70usize, pj, 0));
        assert(shape_touches(sh, p, d) == shape_touches(70usize, p, d));
    } else if sh == 71 {
        assert(shape_touches(sh, pj, 0) == shape_touches(71usize, pj, 0));
        assert(shape_touches(sh, p, d) == shape_touches(71usize, p, d));
    } else if sh == 72 {
        assert(shape_touches(sh, pj, 0) == shape_touches(72usize, pj, 0));
        assert(shape_touches(sh, p, d) == shape_touches(72usize, p, d));
    } else if sh == 73 {
        assert(shape_touches(sh, pj, 0) == shape_touches(73usize, pj, 0));
        assert(shape_touches(sh, p, d) == shape_touches(73usize, p, d));
    } else if sh == 74 {
        assert(shape_touches(sh, pj, 0) == shape_touches(74usize, pj, 0));
        assert(shape_touches(sh, p, d) == shape_touches(74usize, p, d));
    } else if sh == 75 {
        assert(shape_touches(sh, pj, 0) == shape_touches(75usize, pj, 0));
        assert(shape_touches(sh, p, d) == shape_touches(75usize, p, d));
    } else if sh == 76 {
        assert(shape_touches(sh, pj, 0) == shape_touches(76usize, pj, 0));
        assert(shape_touches(sh, p, d) == shape_touches(76usize, p, d));
    } else if sh == 77 {
        assert(shape_touches(sh, pj, 0) == shape_touches(77usize, pj, 0));
        assert(shape_touches(sh, p, d) == shape_touches(77usize, p, d));
    } else if sh == 78 {
        assert(shape_touches(sh, pj, 0) == shape_touches(78usize, pj, 0));
        assert(shape_touches(sh, p, d) == shape_touches(78usize, p, d));
    } else if sh == 79 {
        assert(shape_touches(sh, pj, 0) == shape_touches(79usize, pj, 0));
        assert(shape_touches(sh, p, d) == shape_touches(79usize, p, d));
    } else if sh == 80 {
        assert(shape_touches(sh, pj, 0) == shape_touches(80usize, pj, 0));
        assert(shape_touches(sh, p, d) == shape_touches(80usize, p, d));
    } else if sh == 81 {
        assert(shape_touches(sh, pj, 0) == shape_touches(81usize, pj, 0));
        assert(shape_touches(sh, p, d) == shape_touches(81usize, p, d));
    } else if sh == 82 {
        assert(shape_touches(sh, pj, 0) == shape_touches(82usize, pj, 0));
        assert(shape_touches(sh, p, d) == shape_touches(82usize, p, d));
    } else if sh == 83 {
        assert(shape_touches(sh, pj, 0) == shape_touches(83usize, pj, 0));
        assert(shape_touches(sh, p, d) == shape_touches(83usize, p, d));
    } else if sh == 84 {
        assert(shape_touches(sh, pj, 0) == shape_touches(84usize, pj, 0));
        assert(shape_touches(sh, p, d) == shape_touches(84usize, p, d));
    } else if sh == 85 {
        assert(shape_touches(sh, pj, 0) == shape_touches(85usize, pj, 0));
        assert(shape_touches(sh, p, d) == shape_touches(85usize, p, d));
    } else if sh == 86 {
        assert(shape_touches(sh, pj, 0) == shape_touches(86usize, pj, 0));
        assert(shape_touches(sh, p, d) == shape_touches(86usize, p, d));
    } else if sh == 87 {
        assert(shape_touches(sh, pj, 0) == shape_touches(87usize, pj, 0));
        assert(shape_touches(sh, p, d) == shape_touches(87usize, p, d));
    } else if sh == 88 {
        assert(shape_touches(sh, pj, 0) == shape_touches(88usize, pj, 0));
        assert(shape_touches(sh, p, d) == shape_touches(88usize, p, d));
    } else if sh == 89 {
        assert(shape_touches(sh, pj, 0) == shape_touches(89usize, pj, 0));
        assert(shape_touches(sh, p, d) == shape_touches(89usize, p, d));
    } else if sh == 90 {
        assert(shape_touches(sh, pj, 0) == shape_touches(90usize, pj, 0));
        assert(shape_touches(sh, p, d) == shape_touches(90usize, p, d));
    }
}

/// A field of a shape that move generation tests against the placement fields makes the shape
/// touch them when it lies on one.
proof fn lemma_tested_cell(sh: usize, j: int, p: spec_fn(int) -> bool, d: int)
    requires
        sh < 91,
        shape_touches(sh, |i: int| i == j, 0),
        p(d + j),
    ensures
        shape_touches(sh, p, d),
{
    if sh < 23 {
        lemma_tested_cell_0(sh, j, p, d);
    } else if sh < 46 {
        lemma_tested_cell_1(sh, j, p, d);
    } else if sh < 69 {
        lemma_tested_cell_2(sh, j, p, d);
    } else {
        lemma_tested_cell_3(sh, j, p, d);
    }
}

/// Every set action that `validate_action` accepts is a legal move, so move generation offers
/// it, unless the color to move has skipped.
#[verifier::spinoff_prover]
#[verifier::rlimit(80)]
pub proof fn lemma_valid_is_generated(s: GameState, a: Action)
    requires
        action_valid(s, a),
        !a.is_skip_spec(),
        !skip_bit(s.skipped, (s.ply % 4) as int),
        a.shape_spec() < 91,
    ensures
        legal_move(s, a.destination_spec(), a.shape_spec()),
        forall|acts: Seq<Action>| #[trigger] possible_actions(s, acts) ==> acts.contains(a),
{
    let c = (s.ply % 4) as int;
    let d = a.destination_spec();
    let sh = a.shape_spec();
    let shu = sh as usize;
    let piece = Bitboard::with_piece_spec(d as u16, shu);
    let w = piece_shape_spec(shu);
    let legal = |i: int| legal_field(s, c, i);
    let pf = |i: int| placement_field(s, c, i);
    assert(0 <= d < 512);
    lemma_with_piece_bits(d as u16, shu);
    assert(piece_origin(d as u16) == d);
    lemma_offsets(shu);
    lemma_shape_extent(sh);
    let i0 = choose|i: int| #[trigger] piece.has(i) && placement_field(s, c, i);
    assert(legal_field(s, c, i0));
    assert(d < 420);
    let j0 = i0 - d;
    assert(u128_bit(w, j0));
    assert(is_offset(shu, j0));
    // every field of the shape lies in the piece, and is legal
    assert forall|j: int| #[trigger] u128_bit(w, j) implies legal(d + j) by {
        assert(piece.has(d + j));
    }
    lemma_piece_fields(shu, legal, d);
    if sh == 0 {
        assert(is_offset(0usize, j0) ==> j0 == 0) by {
            reveal_with_fuel(seq_has, 2);
        }
    } else {
        if shape_touches(shu, |i: int| i == j0, 0) {
            lemma_tested_cell(shu, j0, pf, d);
        } else {
            lemma_inner_cell(shu, j0);
            let own = s.board[c];
            // a neighbouring field of the shape would touch the color's own field at the corner
            assert forall|j: int| #[trigger] is_offset(shu, j) implies legal_field(s, c, d + j) by {
                assert(u128_bit(w, j));
                assert(legal(d + j));
            }
            if s.ply > 3 {
                if own.has(i0 - 22) {
                    if is_offset(shu, j0 - 1) {
                        assert(legal_field(s, c, d + j0 - 1));
                    } else {
                        assert(legal_field(s, c, d + j0 - 21));
                    }
                } else if own.has(i0 - 20) {
                    if is_offset(shu, j0 + 1) {
                        assert(legal_field(s, c, d + j0 + 1));
                    } else {
                        assert(legal_field(s, c, d + j0 - 21));
                    }
                } else if own.has(i0 + 20) {
                    if is_offset(shu, j0 - 1) {
                        assert(legal_field(s, c, d + j0 - 1));
                    } else {
                        assert(legal_field(s, c, d + j0 + 21));
                    }
                } else {
                    if is_offset(shu, j0 + 1) {
                        assert(legal_field(s, c, d + j0 + 1));
                    } else {
                        assert(legal_field(s, c, d + j0 + 21));
                    }
                }
            } else {
                assert(is_start_field(i0));
                if i0 == 0 {
                    if is_offset(shu, j0 - 1) {
                        assert(legal_field(s, c, d + j0 - 1));
                    } else {
                        assert(legal_field(s, c, d + j0 - 21));
                    }
                } else if i0 == 19 {
                    if is_offset(shu, j0 + 1) {
                        assert(legal_field(s, c, d + j0 + 1));
                    } else {
                        assert(legal_field(s, c, d + j0 - 21));
                    }
                } else if i0 == 399 {
                    if is_offset(shu, j0 - 1) {
                        assert(legal_field(s, c, d + j0 - 1));
                    } else {
                        assert(legal_field(s, c, d + j0 + 21));
                    }
                } else {
                    if is_offset(shu, j0 + 1) {
                        assert(legal_field(s, c, d + j0 + 1));
                    } else {
                        assert(legal_field(s, c, d + j0 + 21));
                    }
                }
            }
        }
    }
    assert(legal_move(s, d, sh));
    assert(a == Action((d * 128 + sh) as u16));
}

} // verus!

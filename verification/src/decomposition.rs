use vstd::prelude::*;
use crate::action::Action;
use crate::bitboard::{Bitboard, is_valid_field, lemma_has_ext};
use crate::geometry::{board_of, lemma_board_of};
use crate::integrity::{
    has_type_upto, type_of_action, integrity, used_size, lemma_used_size_bound, pieces_recognised,
};
use crate::gamestate::{GameState, legal_field, placement_field, action_done};
use crate::piece_type::{piece_type_spec, shape_type_spec};
use crate::sanity::possible_action;
use crate::counting::{lemma_count_disjoint, lemma_count_board};
use crate::shape_laws::{
    lemma_possible_action_valid, lemma_legal_move_recognised, lemma_piece_size,
    lemma_same_integrity,
};
use crate::pieces::{
    grow, grown, grow_times, single, first_field, pieces_from, action_of_board, lemma_grow,
    lemma_single, lemma_first_field,
};
use crate::shape_laws::{shape_offsets, lemma_offsets, lemma_seq_has_index, lemma_shape_extent};
use crate::bitboard::{piece_shape_spec, piece_origin, lemma_with_piece_bits};
use crate::bits::u128_bit;

verus! {

/// For each field of shape `s`, the field one step nearer its first field, in a walk along
/// edges inside the shape.
pub open spec fn bfs_parent(s: usize) -> Seq<int> {
    match s {
        0 => seq![0int],
        1 => seq![0int, 0int],
        2 => seq![0int, 0int],
        3 => seq![0int, 0int, 1int],
        4 => seq![0int, 0int, 1int],
        5 => seq![0int, 0int, 1int, 2int],
        6 => seq![0int, 0int, 1int, 2int],
        7 => seq![0int, 0int, 1int, 2int, 3int],
        8 => seq![0int, 0int, 1int, 2int, 3int],
        9 => seq![0int, 0int, 0int, 1int],
        10 => seq![0int, 2int, 0int, 2int, 2int],
        11 => seq![0int, 0int, 1int],
        12 => seq![0int, 0int, 0int],
        13 => seq![0int, 0int, 1int],
        14 => seq![0int, 2int, 0int],
        15 => seq![0int, 0int, 0int, 2int],
        16 => seq![0int, 0int, 1int, 2int],
        17 => seq![0int, 0int, 3int, 1int],
        18 => seq![0int, 0int, 1int, 2int],
        19 => seq![0int, 0int, 1int, 2int],
        20 => seq![0int, 0int, 1int, 0int],
        21 => seq![0int, 0int, 1int, 2int],
        22 => seq![0int, 2int, 3int, 0int],
        23 => seq![0int, 0int, 1int, 2int, 3int],
        24 => seq![0int, 0int, 1int, 2int, 0int],
        25 => seq![0int, 0int, 1int, 2int, 3int],
        26 => seq![0int, 2int, 3int, 4int, 0int],
        27 => seq![0int, 0int, 0int, 2int, 3int],
        28 => seq![0int, 0int, 1int, 2int, 3int],
        29 => seq![0int, 0int, 1int, 2int, 3int],
        30 => seq![0int, 0int, 1int, 4int, 2int],
        31 => seq![0int, 0int, 1int, 1int, 3int],
        32 => seq![0int, 0int, 3int, 1int, 3int],
        33 => seq![0int, 0int, 1int, 2int, 1int],
        34 => seq![0int, 2int, 3int, 0int, 3int],
        35 => seq![0int, 0int, 1int, 1int],
        36 => seq![0int, 2int, 0int, 2int],
        37 => seq![0int, 0int, 1int, 1int],
        38 => seq![0int, 2int, 0int, 2int],
        39 => seq![0int, 0int, 3int, 0int],
        40 => seq![0int, 0int, 1int, 2int],
        41 => seq![0int, 2int, 0int, 1int],
        42 => seq![0int, 0int, 1int, 2int],
        43 => seq![0int, 0int, 1int, 2int, 3int],
        44 => seq![0int, 2int, 3int, 0int, 1int],
        45 => seq![0int, 0int, 0int, 4int, 2int],
        46 => seq![0int, 0int, 1int, 2int, 3int],
        47 => seq![0int, 0int, 1int, 0int, 2int],
        48 => seq![0int, 4int, 0int, 2int, 3int],
        49 => seq![0int, 0int, 0int, 2int, 3int],
        50 => seq![0int, 0int, 1int, 4int, 2int],
        51 => seq![0int, 0int, 1int, 4int, 1int],
        52 => seq![0int, 2int, 0int, 2int, 3int],
        53 => seq![0int, 0int, 3int, 0int, 3int],
        54 => seq![0int, 0int, 1int, 2int, 2int],
        55 => seq![0int, 2int, 3int, 0int, 2int],
        56 => seq![0int, 0int, 1int, 2int, 2int],
        57 => seq![0int, 2int, 0int, 2int, 3int],
        58 => seq![0int, 2int, 0int, 2int, 1int],
        59 => seq![0int, 0int, 1int, 2int, 3int],
        60 => seq![0int, 2int, 0int, 4int, 1int],
        61 => seq![0int, 0int, 1int, 2int, 3int],
        62 => seq![0int, 0int, 3int, 0int, 2int],
        63 => seq![0int, 0int, 3int, 1int, 2int],
        64 => seq![0int, 0int, 1int, 2int, 3int],
        65 => seq![0int, 2int, 0int, 1int, 3int],
        66 => seq![0int, 0int, 1int, 2int, 3int],
        67 => seq![0int, 0int, 3int, 4int, 0int],
        68 => seq![0int, 0int, 1int, 2int, 3int],
        69 => seq![0int, 0int, 1int, 2int, 3int],
        70 => seq![0int, 0int, 1int, 4int, 0int],
        71 => seq![0int, 0int, 1int, 0int, 3int],
        72 => seq![0int, 0int, 3int, 4int, 1int],
        73 => seq![0int, 0int, 1int, 2int, 3int],
        74 => seq![0int, 0int, 1int, 2int, 3int],
        75 => seq![0int, 0int, 0int, 1int, 2int],
        76 => seq![0int, 0int, 0int, 1int, 3int],
        77 => seq![0int, 0int, 0int, 1int, 3int],
        78 => seq![0int, 0int, 1int, 0int, 1int],
        79 => seq![0int, 0int, 1int, 1int, 2int],
        80 => seq![0int, 0int, 3int, 0int, 1int],
        81 => seq![0int, 2int, 0int, 1int, 2int],
        82 => seq![0int, 0int, 1int, 1int, 2int],
        83 => seq![0int, 0int, 1int, 1int, 3int],
        84 => seq![0int, 0int, 1int, 2int, 2int],
        85 => seq![0int, 0int, 3int, 1int, 3int],
        86 => seq![0int, 2int, 0int, 2int, 3int],
        87 => seq![0int, 0int, 1int, 2int, 2int],
        88 => seq![0int, 0int, 1int, 2int, 1int],
        89 => seq![0int, 2int, 3int, 0int, 3int],
        90 => seq![0int, 2int, 0int, 2int, 3int],
        _ => Seq::empty(),
    }
}

/// For each field of shape `s`, its number of steps from the shape's first field along edges
/// inside the shape.
pub open spec fn bfs_depth(s: usize) -> Seq<int> {
    match s {
        0 => seq![0int],
        1 => seq![0int, 1int],
        2 => seq![0int, 1int],
        3 => seq![0int, 1int, 2int],
        4 => seq![0int, 1int, 2int],
        5 => seq![0int, 1int, 2int, 3int],
        6 => seq![0int, 1int, 2int, 3int],
        7 => seq![0int, 1int, 2int, 3int, 4int],
        8 => seq![0int, 1int, 2int, 3int, 4int],
        9 => seq![0int, 1int, 1int, 2int],
        10 => seq![0int, 2int, 1int, 2int, 2int],
        11 => seq![0int, 1int, 2int],
        12 => seq![0int, 1int, 1int],
        13 => seq![0int, 1int, 2int],
        14 => seq![0int, 2int, 1int],
        15 => seq![0int, 1int, 1int, 2int],
        16 => seq![0int, 1int, 2int, 3int],
        17 => seq![0int, 1int, 3int, 2int],
        18 => seq![0int, 1int, 2int, 3int],
        19 => seq![0int, 1int, 2int, 3int],
        20 => seq![0int, 1int, 2int, 1int],
        21 => seq![0int, 1int, 2int, 3int],
        22 => seq![0int, 3int, 2int, 1int],
        23 => seq![0int, 1int, 2int, 3int, 4int],
        24 => seq![0int, 1int, 2int, 3int, 1int],
        25 => seq![0int, 1int, 2int, 3int, 4int],
        26 => seq![0int, 4int, 3int, 2int, 1int],
        27 => seq![0int, 1int, 1int, 2int, 3int],
        28 => seq![0int, 1int, 2int, 3int, 4int],
        29 => seq![0int, 1int, 2int, 3int, 4int],
        30 => seq![0int, 1int, 2int, 4int, 3int],
        31 => seq![0int, 1int, 2int, 2int, 3int],
        32 => seq![0int, 1int, 3int, 2int, 3int],
        33 => seq![0int, 1int, 2int, 3int, 2int],
        34 => seq![0int, 3int, 2int, 1int, 2int],
        35 => seq![0int, 1int, 2int, 2int],
        36 => seq![0int, 2int, 1int, 2int],
        37 => seq![0int, 1int, 2int, 2int],
        38 => seq![0int, 2int, 1int, 2int],
        39 => seq![0int, 1int, 2int, 1int],
        40 => seq![0int, 1int, 2int, 3int],
        41 => seq![0int, 2int, 1int, 3int],
        42 => seq![0int, 1int, 2int, 3int],
        43 => seq![0int, 1int, 2int, 3int, 4int],
        44 => seq![0int, 3int, 2int, 1int, 4int],
        45 => seq![0int, 1int, 1int, 3int, 2int],
        46 => seq![0int, 1int, 2int, 3int, 4int],
        47 => seq![0int, 1int, 2int, 1int, 3int],
        48 => seq![0int, 4int, 1int, 2int, 3int],
        49 => seq![0int, 1int, 1int, 2int, 3int],
        50 => seq![0int, 1int, 2int, 4int, 3int],
        51 => seq![0int, 1int, 2int, 3int, 2int],
        52 => seq![0int, 2int, 1int, 2int, 3int],
        53 => seq![0int, 1int, 2int, 1int, 2int],
        54 => seq![0int, 1int, 2int, 3int, 3int],
        55 => seq![0int, 3int, 2int, 1int, 3int],
        56 => seq![0int, 1int, 2int, 3int, 3int],
        57 => seq![0int, 2int, 1int, 2int, 3int],
        58 => seq![0int, 2int, 1int, 2int, 3int],
        59 => seq![0int, 1int, 2int, 3int, 4int],
        60 => seq![0int, 2int, 1int, 4int, 3int],
        61 => seq![0int, 1int, 2int, 3int, 4int],
        62 => seq![0int, 1int, 2int, 1int, 3int],
        63 => seq![0int, 1int, 3int, 2int, 4int],
        64 => seq![0int, 1int, 2int, 3int, 4int],
        65 => seq![0int, 2int, 1int, 3int, 4int],
        66 => seq![0int, 1int, 2int, 3int, 4int],
        67 => seq![0int, 1int, 3int, 2int, 1int],
        68 => seq![0int, 1int, 2int, 3int, 4int],
        69 => seq![0int, 1int, 2int, 3int, 4int],
        70 => seq![0int, 1int, 2int, 2int, 1int],
        71 => seq![0int, 1int, 2int, 1int, 2int],
        72 => seq![0int, 1int, 4int, 3int, 2int],
        73 => seq![0int, 1int, 2int, 3int, 4int],
        74 => seq![0int, 1int, 2int, 3int, 4int],
        75 => seq![0int, 1int, 1int, 2int, 2int],
        76 => seq![0int, 1int, 1int, 2int, 3int],
        77 => seq![0int, 1int, 1int, 2int, 3int],
        78 => seq![0int, 1int, 2int, 1int, 2int],
        79 => seq![0int, 1int, 2int, 2int, 3int],
        80 => seq![0int, 1int, 2int, 1int, 2int],
        81 => seq![0int, 2int, 1int, 3int, 2int],
        82 => seq![0int, 1int, 2int, 2int, 3int],
        83 => seq![0int, 1int, 2int, 2int, 3int],
        84 => seq![0int, 1int, 2int, 3int, 3int],
        85 => seq![0int, 1int, 3int, 2int, 3int],
        86 => seq![0int, 2int, 1int, 2int, 3int],
        87 => seq![0int, 1int, 2int, 3int, 3int],
        88 => seq![0int, 1int, 2int, 3int, 2int],
        89 => seq![0int, 3int, 2int, 1int, 2int],
        90 => seq![0int, 2int, 1int, 2int, 3int],
        _ => Seq::empty(),
    }
}

/// The walks of `bfs_parent` and `bfs_depth` hold for shape `s`: every field but the first
/// is one edge from its parent, one step further, at most four steps from the first field,
/// which is the lowest.
#[verifier::rlimit(60)]
proof fn lemma_bfs_one(s: usize)
    requires
        s < 91,
    ensures
        bfs_parent(s).len() == shape_offsets(s).len(),
        bfs_depth(s).len() == shape_offsets(s).len(),
        shape_offsets(s).len() >= 1,
        bfs_depth(s)[0] == 0,
        forall|k: int|
            1 <= k < shape_offsets(s).len() ==> {
                &&& 0 <= #[trigger] bfs_parent(s)[k] < shape_offsets(s).len()
                &&& bfs_depth(s)[k] == bfs_depth(s)[bfs_parent(s)[k]] + 1
                &&& 1 <= bfs_depth(s)[k] <= 4
                &&& {
                    let diff = shape_offsets(s)[k] - shape_offsets(s)[bfs_parent(s)[k]];
                    diff == 1 || diff == -1 || diff == 21 || diff == -21
                }
                &&& shape_offsets(s)[0] < shape_offsets(s)[k]
            },
{
    if s == 0 {
        assert(shape_offsets(s) == shape_offsets(0usize));
        assert(bfs_parent(s) == bfs_parent(0usize));
        assert(bfs_depth(s) == bfs_depth(0usize));
    } else if s == 1 {
        assert(shape_offsets(s) == shape_offsets(1usize));
        assert(bfs_parent(s) == bfs_parent(1usize));
        assert(bfs_depth(s) == bfs_depth(1usize));
    } else if s == 2 {
        assert(shape_offsets(s) == shape_offsets(2usize));
        assert(bfs_parent(s) == bfs_parent(2usize));
        assert(bfs_depth(s) == bfs_depth(2usize));
    } else if s == 3 {
        assert(shape_offsets(s) == shape_offsets(3usize));
        assert(bfs_parent(s) == bfs_parent(3usize));
        assert(bfs_depth(s) == bfs_depth(3usize));
    } else if s == 4 {
        assert(shape_offsets(s) == shape_offsets(4usize));
        assert(bfs_parent(s) == bfs_parent(4usize));
        assert(bfs_depth(s) == bfs_depth(4usize));
    } else if s == 5 {
        assert(shape_offsets(s) == shape_offsets(5usize));
        assert(bfs_parent(s) == bfs_parent(5usize));
        assert(bfs_depth(s) == bfs_depth(5usize));
    } else if s == 6 {
        assert(shape_offsets(s) == shape_offsets(6usize));
        assert(bfs_parent(s) == bfs_parent(6usize));
        assert(bfs_depth(s) == bfs_depth(6usize));
    } else if s == 7 {
        assert(shape_offsets(s) == shape_offsets(7usize));
        assert(bfs_parent(s) == bfs_parent(7usize));
        assert(bfs_depth(s) == bfs_depth(7usize));
    } else if s == 8 {
        assert(shape_offsets(s) == shape_offsets(8usize));
        assert(bfs_parent(s) == bfs_parent(8usize));
        assert(bfs_depth(s) == bfs_depth(8usize));
    } else if s == 9 {
        assert(shape_offsets(s) == shape_offsets(9usize));
        assert(bfs_parent(s) == bfs_parent(9usize));
        assert(bfs_depth(s) == bfs_depth(9usize));
    } else if s == 10 {
        assert(shape_offsets(s) == shape_offsets(10usize));
        assert(bfs_parent(s) == bfs_parent(10usize));
        assert(bfs_depth(s) == bfs_depth(10usize));
    } else if s == 11 {
        assert(shape_offsets(s) == shape_offsets(11usize));
        assert(bfs_parent(s) == bfs_parent(11usize));
        assert(bfs_depth(s) == bfs_depth(11usize));
    } else if s == 12 {
        assert(shape_offsets(s) == shape_offsets(12usize));
        assert(bfs_parent(s) == bfs_parent(12usize));
        assert(bfs_depth(s) == bfs_depth(12usize));
    } else if s == 13 {
        assert(shape_offsets(s) == shape_offsets(13usize));
        assert(bfs_parent(s) == bfs_parent(13usize));
        assert(bfs_depth(s) == bfs_depth(13usize));
    } else if s == 14 {
        assert(shape_offsets(s) == shape_offsets(14usize));
        assert(bfs_parent(s) == bfs_parent(14usize));
        assert(bfs_depth(s) == bfs_depth(14usize));
    } else if s == 15 {
        assert(shape_offsets(s) == shape_offsets(15usize));
        assert(bfs_parent(s) == bfs_parent(15usize));
        assert(bfs_depth(s) == bfs_depth(15usize));
    } else if s == 16 {
        assert(shape_offsets(s) == shape_offsets(16usize));
        assert(bfs_parent(s) == bfs_parent(16usize));
        assert(bfs_depth(s) == bfs_depth(16usize));
    } else if s == 17 {
        assert(shape_offsets(s) == shape_offsets(17usize));
        assert(bfs_parent(s) == bfs_parent(17usize));
        assert(bfs_depth(s) == bfs_depth(17usize));
    } else if s == 18 {
        assert(shape_offsets(s) == shape_offsets(18usize));
        assert(bfs_parent(s) == bfs_parent(18usize));
        assert(bfs_depth(s) == bfs_depth(18usize));
    } else if s == 19 {
        assert(shape_offsets(s) == shape_offsets(19usize));
        assert(bfs_parent(s) == bfs_parent(19usize));
        assert(bfs_depth(s) == bfs_depth(19usize));
    } else if s == 20 {
        assert(shape_offsets(s) == shape_offsets(20usize));
        assert(bfs_parent(s) == bfs_parent(20usize));
        assert(bfs_depth(s) == bfs_depth(20usize));
    } else if s == 21 {
        assert(shape_offsets(s) == shape_offsets(21usize));
        assert(bfs_parent(s) == bfs_parent(21usize));
        assert(bfs_depth(s) == bfs_depth(21usize));
    } else if s == 22 {
        assert(shape_offsets(s) == shape_offsets(22usize));
        assert(bfs_parent(s) == bfs_parent(22usize));
        assert(bfs_depth(s) == bfs_depth(22usize));
    } else if s == 23 {
        assert(shape_offsets(s) == shape_offsets(23usize));
        assert(bfs_parent(s) == bfs_parent(23usize));
        assert(bfs_depth(s) == bfs_depth(23usize));
    } else if s == 24 {
        assert(shape_offsets(s) == shape_offsets(24usize));
        assert(bfs_parent(s) == bfs_parent(24usize));
        assert(bfs_depth(s) == bfs_depth(24usize));
    } else if s == 25 {
        assert(shape_offsets(s) == shape_offsets(25usize));
        assert(bfs_parent(s) == bfs_parent(25usize));
        assert(bfs_depth(s) == bfs_depth(25usize));
    } else if s == 26 {
        assert(shape_offsets(s) == shape_offsets(26usize));
        assert(bfs_parent(s) == bfs_parent(26usize));
        assert(bfs_depth(s) == bfs_depth(26usize));
    } else if s == 27 {
        assert(shape_offsets(s) == shape_offsets(27usize));
        assert(bfs_parent(s) == bfs_parent(27usize));
        assert(bfs_depth(s) == bfs_depth(27usize));
    } else if s == 28 {
        assert(shape_offsets(s) == shape_offsets(28usize));
        assert(bfs_parent(s) == bfs_parent(28usize));
        assert(bfs_depth(s) == bfs_depth(28usize));
    } else if s == 29 {
        assert(shape_offsets(s) == shape_offsets(29usize));
        assert(bfs_parent(s) == bfs_parent(29usize));
        assert(bfs_depth(s) == bfs_depth(29usize));
    } else if s == 30 {
        assert(shape_offsets(s) == shape_offsets(30usize));
        assert(bfs_parent(s) == bfs_parent(30usize));
        assert(bfs_depth(s) == bfs_depth(30usize));
    } else if s == 31 {
        assert(shape_offsets(s) == shape_offsets(31usize));
        assert(bfs_parent(s) == bfs_parent(31usize));
        assert(bfs_depth(s) == bfs_depth(31usize));
    } else if s == 32 {
        assert(shape_offsets(s) == shape_offsets(32usize));
        assert(bfs_parent(s) == bfs_parent(32usize));
        assert(bfs_depth(s) == bfs_depth(32usize));
    } else if s == 33 {
        assert(shape_offsets(s) == shape_offsets(33usize));
        assert(bfs_parent(s) == bfs_parent(33usize));
        assert(bfs_depth(s) == bfs_depth(33usize));
    } else if s == 34 {
        assert(shape_offsets(s) == shape_offsets(34usize));
        assert(bfs_parent(s) == bfs_parent(34usize));
        assert(bfs_depth(s) == bfs_depth(34usize));
    } else if s == 35 {
        assert(shape_offsets(s) == shape_offsets(35usize));
        assert(bfs_parent(s) == bfs_parent(35usize));
        assert(bfs_depth(s) == bfs_depth(35usize));
    } else if s == 36 {
        assert(shape_offsets(s) == shape_offsets(36usize));
        assert(bfs_parent(s) == bfs_parent(36usize));
        assert(bfs_depth(s) == bfs_depth(36usize));
    } else if s == 37 {
        assert(shape_offsets(s) == shape_offsets(37usize));
        assert(bfs_parent(s) == bfs_parent(37usize));
        assert(bfs_depth(s) == bfs_depth(37usize));
    } else if s == 38 {
        assert(shape_offsets(s) == shape_offsets(38usize));
        assert(bfs_parent(s) == bfs_parent(38usize));
        assert(bfs_depth(s) == bfs_depth(38usize));
    } else if s == 39 {
        assert(shape_offsets(s) == shape_offsets(39usize));
        assert(bfs_parent(s) == bfs_parent(39usize));
        assert(bfs_depth(s) == bfs_depth(39usize));
    } else if s == 40 {
        assert(shape_offsets(s) == shape_offsets(40usize));
        assert(bfs_parent(s) == bfs_parent(40usize));
        assert(bfs_depth(s) == bfs_depth(40usize));
    } else if s == 41 {
        assert(shape_offsets(s) == shape_offsets(41usize));
        assert(bfs_parent(s) == bfs_parent(41usize));
        assert(bfs_depth(s) == bfs_depth(41usize));
    } else if s == 42 {
        assert(shape_offsets(s) == shape_offsets(42usize));
        assert(bfs_parent(s) == bfs_parent(42usize));
        assert(bfs_depth(s) == bfs_depth(42usize));
    } else if s == 43 {
        assert(shape_offsets(s) == shape_offsets(43usize));
        assert(bfs_parent(s) == bfs_parent(43usize));
        assert(bfs_depth(s) == bfs_depth(43usize));
    } else if s == 44 {
        assert(shape_offsets(s) == shape_offsets(44usize));
        assert(bfs_parent(s) == bfs_parent(44usize));
        assert(bfs_depth(s) == bfs_depth(44usize));
    } else if s == 45 {
        assert(shape_offsets(s) == shape_offsets(45usize));
        assert(bfs_parent(s) == bfs_parent(45usize));
        assert(bfs_depth(s) == bfs_depth(45usize));
    } else if s == 46 {
        assert(shape_offsets(s) == shape_offsets(46usize));
        assert(bfs_parent(s) == bfs_parent(46usize));
        assert(bfs_depth(s) == bfs_depth(46usize));
    } else if s == 47 {
        assert(shape_offsets(s) == shape_offsets(47usize));
        assert(bfs_parent(s) == bfs_parent(47usize));
        assert(bfs_depth(s) == bfs_depth(47usize));
    } else if s == 48 {
        assert(shape_offsets(s) == shape_offsets(48usize));
        assert(bfs_parent(s) == bfs_parent(48usize));
        assert(bfs_depth(s) == bfs_depth(48usize));
    } else if s == 49 {
        assert(shape_offsets(s) == shape_offsets(49usize));
        assert(bfs_parent(s) == bfs_parent(49usize));
        assert(bfs_depth(s) == bfs_depth(49usize));
    } else if s == 50 {
        assert(shape_offsets(s) == shape_offsets(50usize));
        assert(bfs_parent(s) == bfs_parent(50usize));
        assert(bfs_depth(s) == bfs_depth(50usize));
    } else if s == 51 {
        assert(shape_offsets(s) == shape_offsets(51usize));
        assert(bfs_parent(s) == bfs_parent(51usize));
        assert(bfs_depth(s) == bfs_depth(51usize));
    } else if s == 52 {
        assert(shape_offsets(s) == shape_offsets(52usize));
        assert(bfs_parent(s) == bfs_parent(52usize));
        assert(bfs_depth(s) == bfs_depth(52usize));
    } else if s == 53 {
        assert(shape_offsets(s) == shape_offsets(53usize));
        assert(bfs_parent(s) == bfs_parent(53usize));
        assert(bfs_depth(s) == bfs_depth(53usize));
    } else if s == 54 {
        assert(shape_offsets(s) == shape_offsets(54usize));
        assert(bfs_parent(s) == bfs_parent(54usize));
        assert(bfs_depth(s) == bfs_depth(54usize));
    } else if s == 55 {
        assert(shape_offsets(s) == shape_offsets(55usize));
        assert(bfs_parent(s) == bfs_parent(55usize));
        assert(bfs_depth(s) == bfs_depth(55usize));
    } else if s == 56 {
        assert(shape_offsets(s) == shape_offsets(56usize));
        assert(bfs_parent(s) == bfs_parent(56usize));
        assert(bfs_depth(s) == bfs_depth(56usize));
    } else if s == 57 {
        assert(shape_offsets(s) == shape_offsets(57usize));
        assert(bfs_parent(s) == bfs_parent(57usize));
        assert(bfs_depth(s) == bfs_depth(57usize));
    } else if s == 58 {
        assert(shape_offsets(s) == shape_offsets(58usize));
        assert(bfs_parent(s) == bfs_parent(58usize));
        assert(bfs_depth(s) == bfs_depth(58usize));
    } else if s == 59 {
        assert(shape_offsets(s) == shape_offsets(59usize));
        assert(bfs_parent(s) == bfs_parent(59usize));
        assert(bfs_depth(s) == bfs_depth(59usize));
    } else if s == 60 {
        assert(shape_offsets(s) == shape_offsets(60usize));
        assert(bfs_parent(s) == bfs_parent(60usize));
        assert(bfs_depth(s) == bfs_depth(60usize));
    } else if s == 61 {
        assert(shape_offsets(s) == shape_offsets(61usize));
        assert(bfs_parent(s) == bfs_parent(61usize));
        assert(bfs_depth(s) == bfs_depth(61usize));
    } else if s == 62 {
        assert(shape_offsets(s) == shape_offsets(62usize));
        assert(bfs_parent(s) == bfs_parent(62usize));
        assert(bfs_depth(s) == bfs_depth(62usize));
    } else if s == 63 {
        assert(shape_offsets(s) == shape_offsets(63usize));
        assert(bfs_parent(s) == bfs_parent(63usize));
        assert(bfs_depth(s) == bfs_depth(63usize));
    } else if s == 64 {
        assert(shape_offsets(s) == shape_offsets(64usize));
        assert(bfs_parent(s) == bfs_parent(64usize));
        assert(bfs_depth(s) == bfs_depth(64usize));
    } else if s == 65 {
        assert(shape_offsets(s) == shape_offsets(65usize));
        assert(bfs_parent(s) == bfs_parent(65usize));
        assert(bfs_depth(s) == bfs_depth(65usize));
    } else if s == 66 {
        assert(shape_offsets(s) == shape_offsets(66usize));
        assert(bfs_parent(s) == bfs_parent(66usize));
        assert(bfs_depth(s) == bfs_depth(66usize));
    } else if s == 67 {
        assert(shape_offsets(s) == shape_offsets(67usize));
        assert(bfs_parent(s) == bfs_parent(67usize));
        assert(bfs_depth(s) == bfs_depth(67usize));
    } else if s == 68 {
        assert(shape_offsets(s) == shape_offsets(68usize));
        assert(bfs_parent(s) == bfs_parent(68usize));
        assert(bfs_depth(s) == bfs_depth(68usize));
    } else if s == 69 {
        assert(shape_offsets(s) == shape_offsets(69usize));
        assert(bfs_parent(s) == bfs_parent(69usize));
        assert(bfs_depth(s) == bfs_depth(69usize));
    } else if s == 70 {
        assert(shape_offsets(s) == shape_offsets(70usize));
        assert(bfs_parent(s) == bfs_parent(70usize));
        assert(bfs_depth(s) == bfs_depth(70usize));
    } else if s == 71 {
        assert(shape_offsets(s) == shape_offsets(71usize));
        assert(bfs_parent(s) == bfs_parent(71usize));
        assert(bfs_depth(s) == bfs_depth(71usize));
    } else if s == 72 {
        assert(shape_offsets(s) == shape_offsets(72usize));
        assert(bfs_parent(s) == bfs_parent(72usize));
        assert(bfs_depth(s) == bfs_depth(72usize));
    } else if s == 73 {
        assert(shape_offsets(s) == shape_offsets(73usize));
        assert(bfs_parent(s) == bfs_parent(73usize));
        assert(bfs_depth(s) == bfs_depth(73usize));
    } else if s == 74 {
        assert(shape_offsets(s) == shape_offsets(74usize));
        assert(bfs_parent(s) == bfs_parent(74usize));
        assert(bfs_depth(s) == bfs_depth(74usize));
    } else if s == 75 {
        assert(shape_offsets(s) == shape_offsets(75usize));
        assert(bfs_parent(s) == bfs_parent(75usize));
        assert(bfs_depth(s) == bfs_depth(75usize));
    } else if s == 76 {
        assert(shape_offsets(s) == shape_offsets(76usize));
        assert(bfs_parent(s) == bfs_parent(76usize));
        assert(bfs_depth(s) == bfs_depth(76usize));
    } else if s == 77 {
        assert(shape_offsets(s) == shape_offsets(77usize));
        assert(bfs_parent(s) == bfs_parent(77usize));
        assert(bfs_depth(s) == bfs_depth(77usize));
    } else if s == 78 {
        assert(shape_offsets(s) == shape_offsets(78usize));
        assert(bfs_parent(s) == bfs_parent(78usize));
        assert(bfs_depth(s) == bfs_depth(78usize));
    } else if s == 79 {
        assert(shape_offsets(s) == shape_offsets(79usize));
        assert(bfs_parent(s) == bfs_parent(79usize));
        assert(bfs_depth(s) == bfs_depth(79usize));
    } else if s == 80 {
        assert(shape_offsets(s) == shape_offsets(80usize));
        assert(bfs_parent(s) == bfs_parent(80usize));
        assert(bfs_depth(s) == bfs_depth(80usize));
    } else if s == 81 {
        assert(shape_offsets(s) == shape_offsets(81usize));
        assert(bfs_parent(s) == bfs_parent(81usize));
        assert(bfs_depth(s) == bfs_depth(81usize));
    } else if s == 82 {
        assert(shape_offsets(s) == shape_offsets(82usize));
        assert(bfs_parent(s) == bfs_parent(82usize));
        assert(bfs_depth(s) == bfs_depth(82usize));
    } else if s == 83 {
        assert(shape_offsets(s) == shape_offsets(83usize));
        assert(bfs_parent(s) == bfs_parent(83usize));
        assert(bfs_depth(s) == bfs_depth(83usize));
    } else if s == 84 {
        assert(shape_offsets(s) == shape_offsets(84usize));
        assert(bfs_parent(s) == bfs_parent(84usize));
        assert(bfs_depth(s) == bfs_depth(84usize));
    } else if s == 85 {
        assert(shape_offsets(s) == shape_offsets(85usize));
        assert(bfs_parent(s) == bfs_parent(85usize));
        assert(bfs_depth(s) == bfs_depth(85usize));
    } else if s == 86 {
        assert(shape_offsets(s) == shape_offsets(86usize));
        assert(bfs_parent(s) == bfs_parent(86usize));
        assert(bfs_depth(s) == bfs_depth(86usize));
    } else if s == 87 {
        assert(shape_offsets(s) == shape_offsets(87usize));
        assert(bfs_parent(s) == bfs_parent(87usize));
        assert(bfs_depth(s) == bfs_depth(87usize));
    } else if s == 88 {
        assert(shape_offsets(s) == shape_offsets(88usize));
        assert(bfs_parent(s) == bfs_parent(88usize));
        assert(bfs_depth(s) == bfs_depth(88usize));
    } else if s == 89 {
        assert(shape_offsets(s) == shape_offsets(89usize));
        assert(bfs_parent(s) == bfs_parent(89usize));
        assert(bfs_depth(s) == bfs_depth(89usize));
    } else if s == 90 {
        assert(shape_offsets(s) == shape_offsets(90usize));
        assert(bfs_parent(s) == bfs_parent(90usize));
        assert(bfs_depth(s) == bfs_depth(90usize));
    }
}

/// `p` grows by one step inside `b` to its fields and the fields of `b` on the board that
/// share an edge with one of them.
pub proof fn lemma_grow_has(p: Bitboard, b: Bitboard)
    ensures
        forall|i: int|
            #[trigger] grow(p, b).has(i) == (p.has(i) || (b.has(i) && is_valid_field(i) && (p.has(
                i - 1,
            ) || p.has(i + 1) || p.has(i - 21) || p.has(i + 21)))),
{
    let f = |i: int|
        p.has(i) || (b.has(i) && is_valid_field(i) && (p.has(i - 1) || p.has(i + 1) || p.has(
            i - 21,
        ) || p.has(i + 21)));
    let q = board_of(f);
    lemma_board_of(f);
    assert forall|i: int| #[trigger] q.has(i) == f(i) by {
        if !(0 <= i < 512) {
            assert(!p.has(i));
            assert(!b.has(i));
        }
    }
    assert(grown(p, b, q));
    lemma_grow(p, b, q);
}

/// The board of the single field `t`.
proof fn lemma_single_has(t: int)
    requires
        0 <= t < 512,
    ensures
        forall|i: int| #[trigger] single(t).has(i) == (i == t),
{
    let f = |i: int| i == t;
    lemma_board_of(f);
    lemma_single(t, board_of(f));
}

/// Growing keeps what it had.
proof fn lemma_grow_times_mono(p: Bitboard, b: Bitboard, k: nat)
    ensures
        forall|i: int| p.has(i) ==> #[trigger] grow_times(p, b, k).has(i),
    decreases k,
{
    if k > 0 {
        lemma_grow_times_mono(p, b, (k - 1) as nat);
        lemma_grow_has(grow_times(p, b, (k - 1) as nat), b);
    }
}

/// `r` holds the fields of `b` that share an edge with it and lie on the board.
pub open spec fn closed_in(r: Bitboard, b: Bitboard) -> bool {
    forall|i: int|
        b.has(i) && is_valid_field(i) && (r.has(i - 1) || r.has(i + 1) || r.has(i - 21) || r.has(
            i + 21,
        )) ==> #[trigger] r.has(i)
}

/// Growing inside `b` from fields of a closed part never leaves it.
proof fn lemma_grow_times_inside(p: Bitboard, b: Bitboard, r: Bitboard, k: nat)
    requires
        closed_in(r, b),
        forall|i: int| #[trigger] p.has(i) ==> r.has(i),
    ensures
        forall|i: int| #[trigger] grow_times(p, b, k).has(i) ==> r.has(i),
    decreases k,
{
    if k > 0 {
        lemma_grow_times_inside(p, b, r, (k - 1) as nat);
        let g = grow_times(p, b, (k - 1) as nat);
        lemma_grow_has(g, b);
        assert forall|i: int| #[trigger] grow(g, b).has(i) implies r.has(i) by {
            if !g.has(i) {
                if g.has(i - 1) {
                    assert(r.has(i - 1));
                } else if g.has(i + 1) {
                    assert(r.has(i + 1));
                } else if g.has(i - 21) {
                    assert(r.has(i - 21));
                } else {
                    assert(r.has(i + 21));
                }
            }
        }
    }
}

/// No field of `e` shares an edge with a field of `b`.
pub open spec fn apart(b: Bitboard, e: Bitboard) -> bool {
    forall|i: int|
        #[trigger] e.has(i) ==> !(b.has(i - 1) || b.has(i + 1) || b.has(i - 21) || b.has(i + 21))
}

/// Growing from fields of `b` inside `b` together with fields apart from it is growing inside
/// `b`.
proof fn lemma_grow_times_same(p: Bitboard, b: Bitboard, e: Bitboard, x: Bitboard, k: nat)
    requires
        forall|i: int| #[trigger] x.has(i) == (b.has(i) || e.has(i)),
        apart(b, e),
        forall|i: int| #[trigger] p.has(i) ==> b.has(i),
    ensures
        grow_times(p, x, k) == grow_times(p, b, k),
        forall|i: int| #[trigger] grow_times(p, b, k).has(i) ==> b.has(i),
    decreases k,
{
    if k > 0 {
        lemma_grow_times_same(p, b, e, x, (k - 1) as nat);
        let g = grow_times(p, b, (k - 1) as nat);
        lemma_grow_has(g, x);
        lemma_grow_has(g, b);
        assert forall|i: int| #[trigger] grow(g, x).has(i) == grow(g, b).has(i) by {
            if e.has(i) && !b.has(i) && !g.has(i) {
                assert(!(b.has(i - 1) || b.has(i + 1) || b.has(i - 21) || b.has(i + 21)));
            }
        }
        lemma_has_ext(grow(g, x), grow(g, b));
    }
}


/// The fields of shape `sh` placed at `d`, all on the board: field `d + o` for each offset `o`.
proof fn lemma_piece_offsets(d: int, sh: usize)
    requires
        0 <= d < 420,
        sh < 91,
    ensures
        forall|i: int|
            #[trigger] Bitboard::with_piece_spec(d as u16, sh).has(i) <==> exists|k: int|
                0 <= k < shape_offsets(sh).len() && i == d + #[trigger] shape_offsets(sh)[k],
        forall|k: int|
            0 <= k < shape_offsets(sh).len() ==> 0 <= #[trigger] shape_offsets(sh)[k] <= 88,
{
    let p = Bitboard::with_piece_spec(d as u16, sh);
    let offs = shape_offsets(sh);
    lemma_with_piece_bits(d as u16, sh);
    lemma_offsets(sh);
    lemma_shape_extent(sh as int);
    assert(piece_origin(d as u16) == d);
    assert forall|k: int| 0 <= k < offs.len() implies 0 <= #[trigger] offs[k] <= 88 by {
        lemma_seq_has_index(offs, offs[k]);
        assert(u128_bit(piece_shape_spec(sh), offs[k]));
    }
    assert forall|i: int| #[trigger] p.has(i) <==> exists|k: int|
        0 <= k < offs.len() && i == d + #[trigger] offs[k] by {
        lemma_seq_has_index(offs, i - d);
        if p.has(i) {
            assert(u128_bit(piece_shape_spec(sh), i - d));
            let k = choose|k: int| 0 <= k < offs.len() && #[trigger] offs[k] == i - d;
            assert(i == d + offs[k]);
        }
        if exists|k: int| 0 <= k < offs.len() && i == d + #[trigger] offs[k] {
            let k = choose|k: int| 0 <= k < offs.len() && i == d + #[trigger] offs[k];
            assert(offs[k] == i - d);
            assert(u128_bit(piece_shape_spec(sh), i - d));
        }
    }
}

/// Growing `m` steps inside a piece from its first field reaches every field of the piece
/// whose walk from the first field has at most `m` steps.
proof fn lemma_reach(d: int, sh: usize, m: nat)
    requires
        0 <= d < 420,
        sh < 91,
        forall|i: int| #[trigger] Bitboard::with_piece_spec(d as u16, sh).has(i) ==> is_valid_field(i),
    ensures
        forall|k: int|
            0 <= k < shape_offsets(sh).len() && bfs_depth(sh)[k] <= m ==> #[trigger] grow_times(
                single(d + shape_offsets(sh)[0]),
                Bitboard::with_piece_spec(d as u16, sh),
                m,
            ).has(d + shape_offsets(sh)[k]),
    decreases m,
{
    let p = Bitboard::with_piece_spec(d as u16, sh);
    let offs = shape_offsets(sh);
    let f = d + offs[0];
    lemma_bfs_one(sh);
    lemma_piece_offsets(d, sh);
    assert(0 <= offs[0] <= 88);
    if m == 0 {
        lemma_single_has(f);
        assert forall|k: int| 0 <= k < offs.len() && bfs_depth(sh)[k] <= m implies #[trigger] grow_times(
            single(f), p, m).has(d + offs[k]) by {
            if k > 0 {
                assert(1 <= bfs_depth(sh)[k]) by {
                    assert(0 <= bfs_parent(sh)[k] < offs.len());
                }
            }
        }
    } else {
        lemma_reach(d, sh, (m - 1) as nat);
        let g = grow_times(single(f), p, (m - 1) as nat);
        lemma_grow_has(g, p);
        assert forall|k: int| 0 <= k < offs.len() && bfs_depth(sh)[k] <= m implies #[trigger] grow_times(
            single(f), p, m).has(d + offs[k]) by {
            let i = d + offs[k];
            if bfs_depth(sh)[k] <= m - 1 {
                assert(g.has(i));
            } else {
                if k == 0 {
                    assert(g.has(i));
                } else {
                    let pk = bfs_parent(sh)[k];
                    assert(0 <= pk < offs.len());
                    assert(0 <= offs[k] <= 88);
                    assert(g.has(d + offs[pk]));
                    assert(p.has(i));
                    assert(is_valid_field(i));
                }
            }
        }
    }
}

/// The piece of shape `sh` placed at `d`, all on the board, is its first field grown five
/// steps inside the piece; its first field is the field of its first offset.
pub proof fn lemma_piece_grows(d: int, sh: usize)
    requires
        0 <= d < 420,
        sh < 91,
        forall|i: int| #[trigger] Bitboard::with_piece_spec(d as u16, sh).has(i) ==> is_valid_field(i),
    ensures
        first_field(Bitboard::with_piece_spec(d as u16, sh)) == d + shape_offsets(sh)[0],
        Bitboard::with_piece_spec(d as u16, sh).has(first_field(Bitboard::with_piece_spec(d as u16, sh))),
        forall|j: int|
            0 <= j < first_field(Bitboard::with_piece_spec(d as u16, sh)) ==> !#[trigger] Bitboard::with_piece_spec(d as u16, sh).has(j),
        grow_times(
            single(first_field(Bitboard::with_piece_spec(d as u16, sh))),
            Bitboard::with_piece_spec(d as u16, sh),
            5,
        ) == Bitboard::with_piece_spec(d as u16, sh),
{
    let p = Bitboard::with_piece_spec(d as u16, sh);
    let offs = shape_offsets(sh);
    let f = d + offs[0];
    lemma_bfs_one(sh);
    lemma_piece_offsets(d, sh);
    assert(p.has(f));
    assert forall|j: int| 0 <= j < f implies !#[trigger] p.has(j) by {
        if p.has(j) {
            let k = choose|k: int| 0 <= k < offs.len() && j == d + #[trigger] offs[k];
            if k > 0 {
                assert(0 <= bfs_parent(sh)[k] < offs.len());
            }
        }
    }
    lemma_first_field(p, f);
    lemma_reach(d, sh, 5);
    lemma_single_has(f);
    assert(closed_in(p, p));
    lemma_grow_times_inside(single(f), p, p, 5);
    let g = grow_times(single(f), p, 5);
    assert forall|i: int| #[trigger] g.has(i) == p.has(i) by {
        if p.has(i) {
            let k = choose|k: int| 0 <= k < offs.len() && i == d + #[trigger] offs[k];
            if k > 0 {
                assert(0 <= bfs_parent(sh)[k] < offs.len());
            }
            assert(bfs_depth(sh)[k] <= 5);
        }
    }
    lemma_has_ext(g, p);
}


/// A board with a set bit below `n` has a lowest set bit.
proof fn lemma_lowest(b: Bitboard, n: nat)
    ensures
        (exists|i: int| 0 <= i < n && #[trigger] b.has(i)) ==> exists|t: int|
            #[trigger] b.has(t) && forall|j: int| 0 <= j < t ==> !#[trigger] b.has(j),
    decreases n,
{
    if n > 0 && exists|i: int| 0 <= i < n && #[trigger] b.has(i) {
        if exists|i: int| 0 <= i < n - 1 && #[trigger] b.has(i) {
            lemma_lowest(b, (n - 1) as nat);
        } else {
            assert(b.has(n - 1));
            assert forall|j: int| 0 <= j < n - 1 implies !#[trigger] b.has(j) by {
            }
        }
    }
}

/// The first step of reading the pieces of a board that is not empty: its lowest set bit,
/// grown five steps inside the board, is a part of the board that holds that bit, and taking
/// it out leaves fewer set bits.
proof fn lemma_step(b: Bitboard)
    requires
        b != Bitboard(0, 0, 0, 0),
    ensures
        b.has(first_field(b)),
        forall|j: int| 0 <= j < first_field(b) ==> !#[trigger] b.has(j),
        grow_times(single(first_field(b)), b, 5).has(first_field(b)),
        forall|i: int| #[trigger] grow_times(single(first_field(b)), b, 5).has(i) ==> b.has(i),
        forall|i: int|
            #[trigger] b.xor_spec(grow_times(single(first_field(b)), b, 5)).has(i) == (b.has(i)
                && !grow_times(single(first_field(b)), b, 5).has(i)),
        b.xor_spec(grow_times(single(first_field(b)), b, 5)).count_ones_spec() < b.count_ones_spec(),
{
    crate::bitboard::lemma_empty_iff(b);
    let i0 = choose|i: int| #[trigger] b.has(i);
    assert(0 <= i0 < 512);
    lemma_lowest(b, 512);
    let f = first_field(b);
    assert(b.has(f) && forall|j: int| 0 <= j < f ==> !#[trigger] b.has(j));
    assert(0 <= f < 512);
    lemma_single_has(f);
    lemma_grow_times_mono(single(f), b, 5);
    assert(closed_in(b, b));
    lemma_grow_times_inside(single(f), b, b, 5);
    let g = grow_times(single(f), b, 5);
    let r = b.xor_spec(g);
    crate::sanity::lemma_xor_bits(b, g);
    // fewer set bits: the rest lies inside the board without its first field
    let fr = |i: int| r.has(i);
    let fb = |i: int| b.has(i) && i != f;
    crate::counting::lemma_count_sub(fr, fb);
    lemma_board_of(fb);
    let c = board_of(fb);
    assert forall|i: int| #[trigger] c.has(i) == (b.has(i) && i != f) by {
        if !(0 <= i < 512) {
            assert(!b.has(i));
        }
    }
    crate::counting::lemma_count_remove(b, c, f);
    crate::counting::lemma_count_board(r);
    crate::counting::lemma_count_board(c);
    assert((|i: int| c.has(i)) =~= fb);
}

/// Reading at most `n` pieces of a board gives all of them once `n` is at least its number of
/// set bits.
pub proof fn lemma_pieces_stable(b: Bitboard, n: nat, m: nat)
    requires
        b.count_ones_spec() <= n <= m,
    ensures
        pieces_from(b, n) == pieces_from(b, m),
    decreases n,
{
    if b != Bitboard(0, 0, 0, 0) {
        lemma_step(b);
        let g = grow_times(single(first_field(b)), b, 5);
        lemma_pieces_stable(b.xor_spec(g), (n - 1) as nat, (m - 1) as nat);
    }
}

/// Some piece of `acts` has piece type `t`.
pub open spec fn has_type(acts: Seq<Action>, t: int) -> bool {
    has_type_upto(acts, t, acts.len() as int)
}

proof fn lemma_contains_cons(a: Action, rest: Seq<Action>)
    ensures
        forall|q: Action| #[trigger] (seq![a] + rest).contains(q) == (q == a || rest.contains(q)),
{
    let s = seq![a] + rest;
    assert forall|q: Action| #[trigger] s.contains(q) == (q == a || rest.contains(q)) by {
        if s.contains(q) {
            let j = choose|j: int| 0 <= j < s.len() && s[j] == q;
            if j > 0 {
                assert(rest[j - 1] == q);
            }
        }
        if rest.contains(q) {
            let j = choose|j: int| 0 <= j < rest.len() && rest[j] == q;
            assert(s[j + 1] == q);
        }
        if q == a {
            assert(s[0] == q);
        }
    }
}

/// The piece types of a list of pieces that holds the pieces of another and one piece more.
proof fn lemma_has_type_with(s1: Seq<Action>, s2: Seq<Action>, a: Action, t: int)
    requires
        forall|q: Action| #[trigger] s1.contains(q) == (s2.contains(q) || q == a),
    ensures
        has_type(s1, t) == (has_type(s2, t) || type_of_action(a) == t),
{
    if has_type(s1, t) {
        let j = choose|j: int| 0 <= j < s1.len() && #[trigger] type_of_action(s1[j]) == t;
        assert(s1.contains(s1[j]));
        if s2.contains(s1[j]) {
            let k = choose|k: int| 0 <= k < s2.len() && s2[k] == s1[j];
            assert(type_of_action(s2[k]) == t);
        }
    }
    if has_type(s2, t) {
        let k = choose|k: int| 0 <= k < s2.len() && #[trigger] type_of_action(s2[k]) == t;
        let q = s2[k];
        assert(s2.contains(q));
        assert(s1.contains(q));
        let j = choose|j: int| 0 <= j < s1.len() && s1[j] == q;
        assert(type_of_action(s1[j]) == t);
    }
    if type_of_action(a) == t {
        assert(s1.contains(a));
        let j = choose|j: int| 0 <= j < s1.len() && s1[j] == a;
        assert(type_of_action(s1[j]) == t);
        assert(has_type_upto(s1, t, s1.len() as int));
    }
}

/// Adding to a board a piece of shape `sh` at `d` that lies on the board, shares no field with
/// it and no edge with a field of it adds exactly that piece to the pieces read from the board.
#[verifier::spinoff_prover]
#[verifier::rlimit(40)]
pub proof fn lemma_pieces_with(b: Bitboard, d: int, sh: usize, n: nat)
    requires
        0 <= d < 420,
        sh < 91,
        forall|i: int| #[trigger] Bitboard::with_piece_spec(d as u16, sh).has(i) ==> is_valid_field(i),
        forall|i: int| !(#[trigger] b.has(i) && Bitboard::with_piece_spec(d as u16, sh).has(i)),
        apart(b, Bitboard::with_piece_spec(d as u16, sh)),
        b.count_ones_spec() <= n,
    ensures
        forall|q: Action|
            #[trigger] pieces_from(b.xor_spec(Bitboard::with_piece_spec(d as u16, sh)), n + 1).contains(q)
                == (pieces_from(b, n).contains(q) || q == action_of_board(
                Bitboard::with_piece_spec(d as u16, sh),
            )),
    decreases n,
{
    let p = Bitboard::with_piece_spec(d as u16, sh);
    let x = b.xor_spec(p);
    crate::sanity::lemma_xor_bits(b, p);
    assert forall|i: int| #[trigger] x.has(i) == (b.has(i) || p.has(i)) by {
        assert(!(b.has(i) && p.has(i)));
    }
    lemma_piece_grows(d, sh);
    let pf = first_field(p);
    crate::bitboard::lemma_empty_iff(x);
    assert(x.has(pf));
    lemma_step(x);
    let f = first_field(x);
    let g = grow_times(single(f), x, 5);
    lemma_single_has(f);
    assert(0 <= f < 512);
    assert(pieces_from(x, n + 1) == seq![action_of_board(g)] + pieces_from(x.xor_spec(g), n));
    if p.has(f) {
        assert(f == pf) by {
            assert(!(f < pf));
            assert(!(pf < f));
        }
        assert(apart(p, b)) by {
            assert forall|i: int| #[trigger] b.has(i) implies !(p.has(i - 1) || p.has(i + 1)
                || p.has(i - 21) || p.has(i + 21)) by {
                if p.has(i - 1) {
                    assert(!b.has(i - 1 + 1));
                }
                if p.has(i + 1) {
                    assert(!b.has(i + 1 - 1));
                }
                if p.has(i - 21) {
                    assert(!b.has(i - 21 + 21));
                }
                if p.has(i + 21) {
                    assert(!b.has(i + 21 - 21));
                }
            }
        }
        assert forall|i: int| #[trigger] x.has(i) == (p.has(i) || b.has(i)) by {
        }
        lemma_grow_times_same(single(f), p, b, x, 5);
        assert(g == p);
        crate::sanity::lemma_xor_bits(x, p);
        assert forall|i: int| #[trigger] x.xor_spec(p).has(i) == b.has(i) by {
        }
        lemma_has_ext(x.xor_spec(p), b);
        lemma_contains_cons(action_of_board(p), pieces_from(b, n));
        assert(pieces_from(x, n + 1) == seq![action_of_board(p)] + pieces_from(b, n));
    } else {
        assert(b.has(f));
        assert forall|j: int| 0 <= j < f implies !#[trigger] b.has(j) by {
            assert(!x.has(j));
        }
        lemma_first_field(b, f);
        crate::bitboard::lemma_empty_iff(b);
        lemma_step(b);
        lemma_grow_times_same(single(f), b, p, x, 5);
        assert(g == grow_times(single(f), b, 5));
        let b2 = b.xor_spec(g);
        assert(n >= 1);
        assert(pieces_from(b, n) == seq![action_of_board(g)] + pieces_from(b2, (n - 1) as nat));
        crate::sanity::lemma_xor_bits(b2, p);
        crate::sanity::lemma_xor_bits(x, g);
        assert forall|i: int| #[trigger] x.xor_spec(g).has(i) == b2.xor_spec(p).has(i) by {
            if g.has(i) {
                assert(b.has(i));
            }
        }
        lemma_has_ext(x.xor_spec(g), b2.xor_spec(p));
        assert forall|i: int| !(#[trigger] b2.has(i) && p.has(i)) by {
        }
        assert(apart(b2, p)) by {
            assert forall|i: int| #[trigger] p.has(i) implies !(b2.has(i - 1) || b2.has(i + 1)
                || b2.has(i - 21) || b2.has(i + 21)) by {
                assert(!(b.has(i - 1) || b.has(i + 1) || b.has(i - 21) || b.has(i + 21)));
            }
        }
        lemma_pieces_with(b2, d, sh, (n - 1) as nat);
        lemma_contains_cons(action_of_board(g), pieces_from(b2.xor_spec(p), n));
        lemma_contains_cons(action_of_board(g), pieces_from(b2, (n - 1) as nat));
        let ap = action_of_board(p);
        let ag = action_of_board(g);
        assert(pieces_from(x, n + 1) == seq![ag] + pieces_from(b2.xor_spec(p), n));
        assert forall|q: Action| #[trigger] pieces_from(x, n + 1).contains(q) == (pieces_from(b, n).contains(q)
            || q == ap) by {
            assert((seq![ag] + pieces_from(b2.xor_spec(p), n)).contains(q) == (q == ag || pieces_from(
                b2.xor_spec(p), n).contains(q)));
            assert(pieces_from(b2.xor_spec(p), ((n - 1) as nat + 1) as nat).contains(q) == (pieces_from(b2, (n - 1) as nat).contains(q)
                || q == ap));
            assert((seq![ag] + pieces_from(b2, (n - 1) as nat)).contains(q) == (q == ag || pieces_from(
                b2, (n - 1) as nat).contains(q)));
        }
    }
}


/// The fields that the piece types below `n` of color `c2` cover, after color `c` placed a
/// piece of type `ty`.
proof fn lemma_used_size_after(s: GameState, t: GameState, c: int, ty: int, c2: int, n: nat)
    requires
        0 <= c < 4,
        0 <= c2 < 4,
        0 <= ty < 21,
        n <= 21,
        s.pieces_left[ty][c],
        forall|k: int, j: int|
            0 <= k < 21 && 0 <= j < 4 ==> #[trigger] t.pieces_left[k][j] == if k == ty && j == c {
                false
            } else {
                s.pieces_left[k][j]
            },
    ensures
        used_size(t, c2, n) == used_size(s, c2, n) + if c2 == c && ty < n {
            piece_type_spec(ty).size_spec()
        } else {
            0
        },
    decreases n,
{
    if n > 0 {
        lemma_used_size_after(s, t, c, ty, c2, (n - 1) as nat);
        assert(t.pieces_left[n - 1][c2] == if n - 1 == ty && c2 == c {
            false
        } else {
            s.pieces_left[n - 1][c2]
        });
    }
}

/// The piece of a possible move other than a skip lies on the board, shares no field and no
/// edge with the pieces of the color to move, is read back as a piece of the move's type, and
/// covers as many fields as that type has, which the color still had.
proof fn lemma_move_piece(s: GameState, a: Action)
    requires
        possible_action(s, a),
        !a.is_skip_spec(),
        a.shape_spec() == 0 && s.ply < 4 ==> legal_field(s, (s.ply % 4) as int, a.destination_spec()),
    ensures
        ({
            let c = (s.ply % 4) as int;
            let d = a.destination_spec();
            let shu = a.shape_spec() as usize;
            let ty = shape_type_spec(shu).index_spec();
            let p = Bitboard::with_piece_spec(d as u16, shu);
            &&& 0 <= d < 420
            &&& shu < 91
            &&& 0 <= ty < 21
            &&& forall|i: int| #[trigger] p.has(i) ==> is_valid_field(i)
            &&& forall|i: int| !(#[trigger] s.board[c].has(i) && p.has(i))
            &&& apart(s.board[c], p)
            &&& type_of_action(action_of_board(p)) == ty
            &&& !action_of_board(p).is_skip_spec()
            &&& p.count_ones_spec() == piece_type_spec(ty).size_spec()
            &&& s.pieces_left[ty][c]
        }),
{
    lemma_possible_action_valid(s, a);
    let c = (s.ply % 4) as int;
    let d = a.destination_spec();
    let sh = a.shape_spec();
    let shu = sh as usize;
    let ty = shape_type_spec(shu).index_spec();
    let p = Bitboard::with_piece_spec(d as u16, shu);
    let b = s.board[c];
    assert(0 <= sh < 91);
    assert(0 <= d < 512);
    lemma_with_piece_bits(d as u16, shu);
    assert(piece_origin(d as u16) == d);
    let i0 = choose|i: int| #[trigger] p.has(i) && placement_field(s, c, i);
    assert(legal_field(s, c, i0));
    assert(d < 420);
    assert forall|i: int| #[trigger] p.has(i) implies is_valid_field(i) by {
        assert(legal_field(s, c, i));
    }
    assert forall|i: int| !(#[trigger] b.has(i) && p.has(i)) by {
        if p.has(i) {
            assert(legal_field(s, c, i));
        }
    }
    assert(apart(b, p)) by {
        assert forall|i: int| #[trigger] p.has(i) implies !(b.has(i - 1) || b.has(i + 1) || b.has(
            i - 21,
        ) || b.has(i + 21)) by {
            assert(legal_field(s, c, i));
        }
    }
    lemma_legal_move_recognised(s, d, sh);
    assert(Action((d * 128 + sh) as u16).shape_spec() == sh);
    lemma_piece_size(d, shu);
    assert(piece_type_spec(ty) == shape_type_spec(shu));
}

/// Making a possible move keeps the pieces on the boards in agreement with the pieces left
/// (see `integrity`), and keeps every piece on the boards one of the shapes; for a monomino in
/// the first round, where the corner it is placed on is a legal field.
pub proof fn lemma_do_keeps_integrity(s: GameState, t: GameState, a: Action)
    requires
        integrity(s),
        possible_action(s, a),
        !a.is_skip_spec() && a.shape_spec() == 0 && s.ply < 4 ==> legal_field(
            s,
            (s.ply % 4) as int,
            a.destination_spec(),
        ),
        action_done(s, t, a),
    ensures
        integrity(t),
        pieces_recognised(s) ==> pieces_recognised(t),
{
    if a.is_skip_spec() {
        lemma_same_integrity(s, t);
        assert(t.board == s.board);
    } else {
        lemma_move_piece(s, a);
        let c = (s.ply % 4) as int;
        let d = a.destination_spec();
        let shu = a.shape_spec() as usize;
        let ty = shape_type_spec(shu).index_spec();
        let p = Bitboard::with_piece_spec(d as u16, shu);
        let b = s.board[c];
        lemma_used_size_bound(s, c, 21);
        assert(b.count_ones_spec() <= 511);
        lemma_pieces_stable(b, 511, 512);
        assert(t.board[c] == b.xor_spec(p));
        lemma_types_after(s, t, c, d, shu, ty);
        lemma_sizes_after(s, t, c, d, shu, ty);
        if pieces_recognised(s) {
            lemma_recognised_after(s, t, c, d, shu);
        }
    }
}

proof fn lemma_types_after(s: GameState, t: GameState, c: int, d: int, shu: usize, ty: int)
    requires
        integrity(s),
        0 <= c < 4,
        0 <= d < 420,
        shu < 91,
        forall|i: int| #[trigger] Bitboard::with_piece_spec(d as u16, shu).has(i) ==> is_valid_field(i),
        forall|i: int| !(#[trigger] s.board[c].has(i) && Bitboard::with_piece_spec(d as u16, shu).has(i)),
        apart(s.board[c], Bitboard::with_piece_spec(d as u16, shu)),
        type_of_action(action_of_board(Bitboard::with_piece_spec(d as u16, shu))) == ty,
        s.board[c].count_ones_spec() <= 511,
        pieces_from(s.board[c], 511) == pieces_from(s.board[c], 512),
        forall|k: int|
            0 <= k < 4 ==> #[trigger] t.board[k] == if k == c {
                s.board[k].xor_spec(Bitboard::with_piece_spec(d as u16, shu))
            } else {
                s.board[k]
            },
        forall|k: int, j: int|
            0 <= k < 21 && 0 <= j < 4 ==> #[trigger] t.pieces_left[k][j] == if k == ty && j == c {
                false
            } else {
                s.pieces_left[k][j]
            },
    ensures
        forall|c2: int, k: int|
            0 <= c2 < 4 && 0 <= k < 21 ==> #[trigger] t.pieces_left[k][c2] == !has_type_upto(
                pieces_from(t.board[c2], 512),
                k,
                pieces_from(t.board[c2], 512).len() as int,
            ),
{
    assert forall|c2: int, k: int| 0 <= c2 < 4 && 0 <= k < 21 implies #[trigger] t.pieces_left[k][c2]
        == !has_type_upto(pieces_from(t.board[c2], 512), k, pieces_from(t.board[c2], 512).len() as int) by {
        assert(s.pieces_left[k][c2] == !has_type_upto(pieces_from(s.board[c2], 512), k, pieces_from(s.board[c2], 512).len() as int));
        assert(t.pieces_left[k][c2] == if k == ty && c2 == c { false } else { s.pieces_left[k][c2] });
        if c2 == c {
            lemma_pieces_with(s.board[c], d, shu, 511);
            assert(t.board[c] == s.board[c].xor_spec(Bitboard::with_piece_spec(d as u16, shu)));
            assert forall|q: Action| #[trigger] pieces_from(t.board[c], 512).contains(q) == (
                pieces_from(s.board[c], 512).contains(q) || q == action_of_board(
                    Bitboard::with_piece_spec(d as u16, shu),
                )) by {
                assert(pieces_from(s.board[c], 511).contains(q) == pieces_from(s.board[c], 512).contains(q));
                assert(pieces_from(s.board[c].xor_spec(Bitboard::with_piece_spec(d as u16, shu)), 511 + 1).contains(q)
                    == (pieces_from(s.board[c], 511).contains(q) || q == action_of_board(
                    Bitboard::with_piece_spec(d as u16, shu))));
            }
            lemma_has_type_with(
                pieces_from(t.board[c], 512),
                pieces_from(s.board[c], 512),
                action_of_board(Bitboard::with_piece_spec(d as u16, shu)),
                k,
            );
        } else {
            assert(t.board[c2] == s.board[c2]);
        }
    }
}

proof fn lemma_sizes_after(s: GameState, t: GameState, c: int, d: int, shu: usize, ty: int)
    requires
        integrity(s),
        0 <= c < 4,
        0 <= ty < 21,
        s.pieces_left[ty][c],
        forall|i: int| !(#[trigger] s.board[c].has(i) && Bitboard::with_piece_spec(d as u16, shu).has(i)),
        Bitboard::with_piece_spec(d as u16, shu).count_ones_spec() == piece_type_spec(ty).size_spec(),
        forall|k: int|
            0 <= k < 4 ==> #[trigger] t.board[k] == if k == c {
                s.board[k].xor_spec(Bitboard::with_piece_spec(d as u16, shu))
            } else {
                s.board[k]
            },
        forall|k: int, j: int|
            0 <= k < 21 && 0 <= j < 4 ==> #[trigger] t.pieces_left[k][j] == if k == ty && j == c {
                false
            } else {
                s.pieces_left[k][j]
            },
    ensures
        forall|c2: int| 0 <= c2 < 4 ==> #[trigger] used_size(t, c2, 21) == t.board[c2].count_ones_spec(),
{
    let p = Bitboard::with_piece_spec(d as u16, shu);
    let b = s.board[c];
    let x = b.xor_spec(p);
    assert forall|c2: int| 0 <= c2 < 4 implies #[trigger] used_size(t, c2, 21) == t.board[c2].count_ones_spec() by {
        lemma_used_size_after(s, t, c, ty, c2, 21);
        assert(used_size(s, c2, 21) == s.board[c2].count_ones_spec());
        if c2 == c {
            assert(t.board[c2] == x);
            crate::sanity::lemma_xor_bits(b, p);
            let fb = |i: int| b.has(i);
            let fp = |i: int| p.has(i);
            lemma_count_disjoint(fb, fp);
            lemma_count_board(b);
            lemma_count_board(p);
            lemma_count_board(x);
            assert((|i: int| fb(i) || fp(i)) =~= (|i: int| x.has(i)));
        } else {
            assert(t.board[c2] == s.board[c2]);
        }
    }
}


proof fn lemma_recognised_after(s: GameState, t: GameState, c: int, d: int, shu: usize)
    requires
        pieces_recognised(s),
        0 <= c < 4,
        0 <= d < 420,
        shu < 91,
        forall|i: int| #[trigger] Bitboard::with_piece_spec(d as u16, shu).has(i) ==> is_valid_field(i),
        forall|i: int| !(#[trigger] s.board[c].has(i) && Bitboard::with_piece_spec(d as u16, shu).has(i)),
        apart(s.board[c], Bitboard::with_piece_spec(d as u16, shu)),
        !action_of_board(Bitboard::with_piece_spec(d as u16, shu)).is_skip_spec(),
        s.board[c].count_ones_spec() <= 511,
        pieces_from(s.board[c], 511) == pieces_from(s.board[c], 512),
        forall|k: int|
            0 <= k < 4 ==> #[trigger] t.board[k] == if k == c {
                s.board[k].xor_spec(Bitboard::with_piece_spec(d as u16, shu))
            } else {
                s.board[k]
            },
    ensures
        pieces_recognised(t),
{
    let p = Bitboard::with_piece_spec(d as u16, shu);
    lemma_pieces_with(s.board[c], d, shu, 511);
    assert forall|c2: int, i: int|
        0 <= c2 < 4 && 0 <= i < pieces_from(t.board[c2], 512).len() implies !(#[trigger] pieces_from(
        t.board[c2],
        512,
    )[i]).is_skip_spec() by {
        if c2 == c {
            assert(t.board[c] == s.board[c].xor_spec(p));
            let q = pieces_from(t.board[c2], 512)[i];
            assert(pieces_from(t.board[c2], 512).contains(q));
            assert(pieces_from(s.board[c].xor_spec(p), 511 + 1).contains(q));
            if pieces_from(s.board[c], 511).contains(q) {
                let k = choose|k: int| 0 <= k < pieces_from(s.board[c], 512).len() && pieces_from(
                    s.board[c],
                    512,
                )[k] == q;
                assert(!pieces_from(s.board[c], 512)[k].is_skip_spec());
            }
        } else {
            assert(t.board[c2] == s.board[c2]);
            assert(!pieces_from(s.board[c2], 512)[i].is_skip_spec());
        }
    }
}


proof fn lemma_used_size_none(s: GameState, c: int, n: nat)
    requires
        n <= 21,
        forall|t: int| 0 <= t < 21 ==> #[trigger] s.pieces_left[t][c],
    ensures
        used_size(s, c, n) == 0,
    decreases n,
{
    if n > 0 {
        lemma_used_size_none(s, c, (n - 1) as nat);
        assert(s.pieces_left[n - 1][c]);
    }
}

/// A position with empty boards and every piece left, as at the start of a game, has its pieces
/// in agreement with the pieces left.
pub proof fn lemma_start_integrity(s: GameState)
    requires
        forall|c: int| 0 <= c < 4 ==> #[trigger] s.board[c] == Bitboard(0, 0, 0, 0),
        forall|t: int, c: int| 0 <= t < 21 && 0 <= c < 4 ==> #[trigger] s.pieces_left[t][c],
    ensures
        integrity(s),
        pieces_recognised(s),
{
    let e = Bitboard(0, 0, 0, 0);
    assert(pieces_from(e, 512) == Seq::<Action>::empty());
    crate::bitboard::lemma_empty_iff(e);
    lemma_count_board(e);
    crate::shape_laws::lemma_count_nothing(|i: int| e.has(i));
    assert forall|c: int, t: int| 0 <= c < 4 && 0 <= t < 21 implies #[trigger] s.pieces_left[t][c]
        == !has_type_upto(pieces_from(s.board[c], 512), t, pieces_from(s.board[c], 512).len() as int) by {
        assert(s.board[c] == e);
    }
    assert forall|c: int| 0 <= c < 4 implies #[trigger] used_size(s, c, 21) == s.board[c].count_ones_spec() by {
        assert(s.board[c] == e);
        assert forall|t: int| 0 <= t < 21 implies #[trigger] s.pieces_left[t][c] by {
        }
        lemma_used_size_none(s, c, 21);
    }
    assert forall|c: int, i: int| 0 <= c < 4 && 0 <= i < pieces_from(s.board[c], 512).len() implies !(
    #[trigger] pieces_from(s.board[c], 512)[i]).is_skip_spec() by {
        assert(s.board[c] == e);
    }
}

} // verus!

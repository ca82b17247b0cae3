use vstd::prelude::*;
use crate::bitboard::Bitboard;

verus! {

/// The fields, as offsets from its top left corner `d`, that shape `shape` covers are all in `l`.
pub open spec fn shape_fits(shape: usize, l: spec_fn(int) -> bool, d: int) -> bool {
    match shape {
        0 => l(d),
        1 => l(d) && l(d + 1),
        2 => l(d) && l(d + 21),
        3 => l(d) && l(d + 1) && l(d + 2),
        4 => l(d) && l(d + 21) && l(d + 42),
        5 => l(d) && l(d + 1) && l(d + 2) && l(d + 3),
        6 => l(d) && l(d + 21) && l(d + 42) && l(d + 63),
        7 => l(d) && l(d + 1) && l(d + 2) && l(d + 3) && l(d + 4),
        8 => l(d) && l(d + 21) && l(d + 42) && l(d + 63) && l(d + 84),
        9 => l(d) && l(d + 1) && l(d + 21) && l(d + 22),
        10 => l(d + 1) && l(d + 21) && l(d + 22) && l(d + 23) && l(d + 43),
        11 => l(d) && l(d + 21) && l(d + 22),
        12 => l(d) && l(d + 1) && l(d + 21),
        13 => l(d) && l(d + 1) && l(d + 22),
        14 => l(d + 1) && l(d + 21) && l(d + 22),
        15 => l(d) && l(d + 1) && l(d + 21) && l(d + 42),
        16 => l(d) && l(d + 1) && l(d + 22) && l(d + 43),
        17 => l(d + 1) && l(d + 22) && l(d + 42) && l(d + 43),
        18 => l(d) && l(d + 21) && l(d + 42) && l(d + 43),
        19 => l(d) && l(d + 21) && l(d + 22) && l(d + 23),
        20 => l(d) && l(d + 1) && l(d + 2) && l(d + 21),
        21 => l(d) && l(d + 1) && l(d + 2) && l(d + 23),
        22 => l(d + 2) && l(d + 21) && l(d + 22) && l(d + 23),
        23 => l(d) && l(d + 1) && l(d + 2) && l(d + 3) && l(d + 24),
        24 => l(d) && l(d + 1) && l(d + 2) && l(d + 3) && l(d + 21),
        25 => l(d) && l(d + 21) && l(d + 22) && l(d + 23) && l(d + 24),
        26 => l(d + 3) && l(d + 21) && l(d + 22) && l(d + 23) && l(d + 24),
        27 => l(d) && l(d + 1) && l(d + 21) && l(d + 42) && l(d + 63),
        28 => l(d) && l(d + 21) && l(d + 42) && l(d + 63) && l(d + 64),
        29 => l(d) && l(d + 1) && l(d + 22) && l(d + 43) && l(d + 64),
        30 => l(d + 1) && l(d + 22) && l(d + 43) && l(d + 63) && l(d + 64),
        31 => l(d) && l(d + 1) && l(d + 2) && l(d + 22) && l(d + 43),
        32 => l(d + 1) && l(d + 22) && l(d + 42) && l(d + 43) && l(d + 44),
        33 => l(d) && l(d + 21) && l(d + 22) && l(d + 23) && l(d + 42),
        34 => l(d + 2) && l(d + 21) && l(d + 22) && l(d + 23) && l(d + 44),
        35 => l(d) && l(d + 1) && l(d + 2) && l(d + 22),
        36 => l(d + 1) && l(d + 21) && l(d + 22) && l(d + 23),
        37 => l(d) && l(d + 21) && l(d + 22) && l(d + 42),
        38 => l(d + 1) && l(d + 21) && l(d + 22) && l(d + 43),
        39 => l(d + 1) && l(d + 2) && l(d + 21) && l(d + 22),
        40 => l(d) && l(d + 1) && l(d + 22) && l(d + 23),
        41 => l(d + 1) && l(d + 21) && l(d + 22) && l(d + 42),
        42 => l(d) && l(d + 21) && l(d + 22) && l(d + 43),
        43 => l(d) && l(d + 21) && l(d + 22) && l(d + 23) && l(d + 44),
        44 => l(d + 2) && l(d + 21) && l(d + 22) && l(d + 23) && l(d + 42),
        45 => l(d + 1) && l(d + 2) && l(d + 22) && l(d + 42) && l(d + 43),
        46 => l(d) && l(d + 1) && l(d + 22) && l(d + 43) && l(d + 44),
        47 => l(d) && l(d + 1) && l(d + 2) && l(d + 21) && l(d + 23),
        48 => l(d) && l(d + 2) && l(d + 21) && l(d + 22) && l(d + 23),
        49 => l(d) && l(d + 1) && l(d + 21) && l(d + 42) && l(d + 43),
        50 => l(d) && l(d + 1) && l(d + 22) && l(d + 42) && l(d + 43),
        51 => l(d + 1) && l(d + 22) && l(d + 23) && l(d + 42) && l(d + 43),
        52 => l(d + 1) && l(d + 21) && l(d + 22) && l(d + 43) && l(d + 44),
        53 => l(d + 1) && l(d + 2) && l(d + 21) && l(d + 22) && l(d + 43),
        54 => l(d) && l(d + 1) && l(d + 22) && l(d + 23) && l(d + 43),
        55 => l(d + 2) && l(d + 21) && l(d + 22) && l(d + 23) && l(d + 43),
        56 => l(d) && l(d + 21) && l(d + 22) && l(d + 23) && l(d + 43),
        57 => l(d + 1) && l(d + 21) && l(d + 22) && l(d + 23) && l(d + 44),
        58 => l(d + 1) && l(d + 21) && l(d + 22) && l(d + 23) && l(d + 42),
        59 => l(d) && l(d + 21) && l(d + 22) && l(d + 43) && l(d + 44),
        60 => l(d + 2) && l(d + 22) && l(d + 23) && l(d + 42) && l(d + 43),
        61 => l(d) && l(d + 1) && l(d + 22) && l(d + 23) && l(d + 44),
        62 => l(d + 1) && l(d + 2) && l(d + 21) && l(d + 22) && l(d + 42),
        63 => l(d + 1) && l(d + 22) && l(d + 42) && l(d + 43) && l(d + 63),
        64 => l(d) && l(d + 21) && l(d + 42) && l(d + 43) && l(d + 64),
        65 => l(d + 1) && l(d + 21) && l(d + 22) && l(d + 42) && l(d + 63),
        66 => l(d) && l(d + 21) && l(d + 22) && l(d + 43) && l(d + 64),
        67 => l(d + 2) && l(d + 3) && l(d + 21) && l(d + 22) && l(d + 23),
        68 => l(d) && l(d + 1) && l(d + 2) && l(d + 23) && l(d + 24),
        69 => l(d) && l(d + 1) && l(d + 22) && l(d + 23) && l(d + 24),
        70 => l(d + 1) && l(d + 2) && l(d + 3) && l(d + 21) && l(d + 22),
        71 => l(d) && l(d + 1) && l(d + 2) && l(d + 21) && l(d + 42),
        72 => l(d + 2) && l(d + 23) && l(d + 42) && l(d + 43) && l(d + 44),
        73 => l(d) && l(d + 1) && l(d + 2) && l(d + 23) && l(d + 44),
        74 => l(d) && l(d + 21) && l(d + 42) && l(d + 43) && l(d + 44),
        75 => l(d) && l(d + 1) && l(d + 21) && l(d + 22) && l(d + 42),
        76 => l(d) && l(d + 1) && l(d + 21) && l(d + 22) && l(d + 43),
        77 => l(d) && l(d + 1) && l(d + 21) && l(d + 22) && l(d + 23),
        78 => l(d) && l(d + 1) && l(d + 2) && l(d + 21) && l(d + 22),
        79 => l(d) && l(d + 1) && l(d + 2) && l(d + 22) && l(d + 23),
        80 => l(d + 1) && l(d + 2) && l(d + 21) && l(d + 22) && l(d + 23),
        81 => l(d + 1) && l(d + 21) && l(d + 22) && l(d + 42) && l(d + 43),
        82 => l(d) && l(d + 21) && l(d + 22) && l(d + 42) && l(d + 43),
        83 => l(d) && l(d + 21) && l(d + 22) && l(d + 42) && l(d + 63),
        84 => l(d) && l(d + 21) && l(d + 42) && l(d + 43) && l(d + 63),
        85 => l(d + 1) && l(d + 22) && l(d + 42) && l(d + 43) && l(d + 64),
        86 => l(d + 1) && l(d + 21) && l(d + 22) && l(d + 43) && l(d + 64),
        87 => l(d) && l(d + 1) && l(d + 2) && l(d + 3) && l(d + 23),
        88 => l(d) && l(d + 1) && l(d + 2) && l(d + 3) && l(d + 22),
        89 => l(d + 2) && l(d + 21) && l(d + 22) && l(d + 23) && l(d + 24),
        90 => l(d + 1) && l(d + 21) && l(d + 22) && l(d + 23) && l(d + 24),
        _ => false,
    }
}

/// Some corner field of shape `shape` placed at `d`, at which the piece can touch a diagonal
/// neighbour of its color, is in `p`.
pub open spec fn shape_touches(shape: usize, p: spec_fn(int) -> bool, d: int) -> bool {
    match shape {
        0 => p(d),
        1 => p(d) || p(d + 1),
        2 => p(d) || p(d + 21),
        3 => p(d) || p(d + 2),
        4 => p(d) || p(d + 42),
        5 => p(d) || p(d + 3),
        6 => p(d) || p(d + 63),
        7 => p(d) || p(d + 4),
        8 => p(d) || p(d + 84),
        9 => p(d) || p(d + 1) || p(d + 21) || p(d + 22),
        10 => p(d + 1) || p(d + 21) || p(d + 23) || p(d + 43),
        11 => p(d) || p(d + 21) || p(d + 22),
        12 => p(d) || p(d + 1) || p(d + 21),
        13 => p(d) || p(d + 1) || p(d + 22),
        14 => p(d + 1) || p(d + 21) || p(d + 22),
        15 => p(d) || p(d + 1) || p(d + 42),
        16 => p(d) || p(d + 1) || p(d + 43),
        17 => p(d + 1) || p(d + 42) || p(d + 43),
        18 => p(d) || p(d + 42) || p(d + 43),
        19 => p(d) || p(d + 21) || p(d + 23),
        20 => p(d) || p(d + 2) || p(d + 21),
        21 => p(d) || p(d + 2) || p(d + 23),
        22 => p(d + 2) || p(d + 21) || p(d + 23),
        23 => p(d) || p(d + 3) || p(d + 24),
        24 => p(d) || p(d + 3) || p(d + 21),
        25 => p(d) || p(d + 21) || p(d + 24),
        26 => p(d + 3) || p(d + 21) || p(d + 24),
        27 => p(d) || p(d + 1) || p(d + 63),
        28 => p(d) || p(d + 63) || p(d + 64),
        29 => p(d) || p(d + 1) || p(d + 64),
        30 => p(d + 1) || p(d + 63) || p(d + 64),
        31 => p(d) || p(d + 2) || p(d + 43),
        32 => p(d + 1) || p(d + 42) || p(d + 44),
        33 => p(d) || p(d + 23) || p(d + 42),
        34 => p(d + 2) || p(d + 21) || p(d + 44),
        35 => p(d) || p(d + 2) || p(d + 22),
        36 => p(d + 1) || p(d + 21) || p(d + 23),
        37 => p(d) || p(d + 22) || p(d + 42),
        38 => p(d + 1) || p(d + 21) || p(d + 43),
        39 => p(d + 1) || p(d + 2) || p(d + 21) || p(d + 22),
        40 => p(d) || p(d + 1) || p(d + 22) || p(d + 23),
        41 => p(d + 1) || p(d + 21) || p(d + 22) || p(d + 42),
        42 => p(d) || p(d + 21) || p(d + 22) || p(d + 43),
        43 => p(d) || p(d + 21) || p(d + 23) || p(d + 44),
        44 => p(d + 2) || p(d + 21) || p(d + 23) || p(d + 42),
        45 => p(d + 1) || p(d + 2) || p(d + 42) || p(d + 43),
        46 => p(d) || p(d + 1) || p(d + 43) || p(d + 44),
        47 => p(d) || p(d + 2) || p(d + 21) || p(d + 23),
        48 => p(d) || p(d + 2) || p(d + 21) || p(d + 23),
        49 => p(d) || p(d + 1) || p(d + 42) || p(d + 43),
        50 => p(d) || p(d + 1) || p(d + 42) || p(d + 43),
        51 => p(d + 1) || p(d + 23) || p(d + 42) || p(d + 43),
        52 => p(d + 1) || p(d + 21) || p(d + 43) || p(d + 44),
        53 => p(d + 1) || p(d + 2) || p(d + 21) || p(d + 43),
        54 => p(d) || p(d + 1) || p(d + 23) || p(d + 43),
        55 => p(d + 2) || p(d + 21) || p(d + 23) || p(d + 43),
        56 => p(d) || p(d + 21) || p(d + 23) || p(d + 43),
        57 => p(d + 1) || p(d + 21) || p(d + 23) || p(d + 44),
        58 => p(d + 1) || p(d + 21) || p(d + 23) || p(d + 42),
        59 => p(d) || p(d + 21) || p(d + 22) || p(d + 43) || p(d + 44),
        60 => p(d + 2) || p(d + 22) || p(d + 23) || p(d + 42) || p(d + 43),
        61 => p(d) || p(d + 1) || p(d + 22) || p(d + 23) || p(d + 44),
        62 => p(d + 1) || p(d + 2) || p(d + 21) || p(d + 22) || p(d + 42),
        63 => p(d + 1) || p(d + 42) || p(d + 43) || p(d + 63),
        64 => p(d) || p(d + 42) || p(d + 43) || p(d + 64),
        65 => p(d + 1) || p(d + 21) || p(d + 22) || p(d + 63),
        66 => p(d) || p(d + 21) || p(d + 22) || p(d + 64),
        67 => p(d + 2) || p(d + 3) || p(d + 21) || p(d + 23),
        68 => p(d) || p(d + 2) || p(d + 23) || p(d + 24),
        69 => p(d) || p(d + 1) || p(d + 22) || p(d + 24),
        70 => p(d + 1) || p(d + 3) || p(d + 21) || p(d + 22),
        71 => p(d) || p(d + 2) || p(d + 42),
        72 => p(d + 2) || p(d + 42) || p(d + 44),
        73 => p(d) || p(d + 2) || p(d + 44),
        74 => p(d) || p(d + 42) || p(d + 44),
        75 => p(d) || p(d + 1) || p(d + 22) || p(d + 42),
        76 => p(d) || p(d + 1) || p(d + 21) || p(d + 43),
        77 => p(d) || p(d + 1) || p(d + 21) || p(d + 23),
        78 => p(d) || p(d + 2) || p(d + 21) || p(d + 22),
        79 => p(d) || p(d + 2) || p(d + 22) || p(d + 23),
        80 => p(d + 1) || p(d + 2) || p(d + 21) || p(d + 23),
        81 => p(d + 1) || p(d + 21) || p(d + 42) || p(d + 43),
        82 => p(d) || p(d + 22) || p(d + 42) || p(d + 43),
        83 => p(d) || p(d + 22) || p(d + 63),
        84 => p(d) || p(d + 43) || p(d + 63),
        85 => p(d + 1) || p(d + 42) || p(d + 64),
        86 => p(d + 1) || p(d + 21) || p(d + 64),
        87 => p(d) || p(d + 3) || p(d + 23),
        88 => p(d) || p(d + 3) || p(d + 22),
        89 => p(d + 2) || p(d + 21) || p(d + 24),
        90 => p(d + 1) || p(d + 21) || p(d + 24),
        _ => false,
    }
}

/// `d` is a destination at which shape `shape` can be placed, given the legal fields `l` and the
/// placement fields `p`: every field of the piece is legal and one of its corners is a placement
/// field. The monomino, whose only field is its corner, needs only the placement field.
pub open spec fn shape_destination(
    shape: usize,
    l: spec_fn(int) -> bool,
    p: spec_fn(int) -> bool,
    d: int,
) -> bool {
    0 <= d && if shape == 0 {
        p(d)
    } else {
        shape_fits(shape, l, d) && shape_touches(shape, p, d)
    }
}

/// All destinations of shape 0: bit `d` is set exactly when the shape fits the legal fields
/// `l` at `d` and touches the placement fields `p`.
pub fn shape_0(l: Bitboard, p: Bitboard) -> (r: Bitboard)
    ensures
        forall|d: int| #[trigger] r.has(d) == shape_destination(0, |i: int| l.has(i), |i: int| p.has(i), d),
{
    p
}

/// All destinations of shape 1: bit `d` is set exactly when the shape fits the legal fields
/// `l` at `d` and touches the placement fields `p`.
pub fn shape_1(l: Bitboard, p: Bitboard) -> (r: Bitboard)
    ensures
        forall|d: int| #[trigger] r.has(d) == shape_destination(1, |i: int| l.has(i), |i: int| p.has(i), d),
{
    let l1 = l.shr(1);
    let p1 = p.shr(1);
    let fits = l.and(l1);
    let touches = p.or(p1);
    fits.and(touches)
}

/// All destinations of shape 2: bit `d` is set exactly when the shape fits the legal fields
/// `l` at `d` and touches the placement fields `p`.
pub fn shape_2(l: Bitboard, p: Bitboard) -> (r: Bitboard)
    ensures
        forall|d: int| #[trigger] r.has(d) == shape_destination(2, |i: int| l.has(i), |i: int| p.has(i), d),
{
    let l21 = l.shr(21);
    let p21 = p.shr(21);
    let fits = l.and(l21);
    let touches = p.or(p21);
    fits.and(touches)
}

/// All destinations of shape 3: bit `d` is set exactly when the shape fits the legal fields
/// `l` at `d` and touches the placement fields `p`.
pub fn shape_3(l: Bitboard, p: Bitboard) -> (r: Bitboard)
    ensures
        forall|d: int| #[trigger] r.has(d) == shape_destination(3, |i: int| l.has(i), |i: int| p.has(i), d),
{
    let l1 = l.shr(1);
    let l2 = l.shr(2);
    let p2 = p.shr(2);
    let fits = l.and(l1).and(l2);
    let touches = p.or(p2);
    fits.and(touches)
}

/// All destinations of shape 4: bit `d` is set exactly when the shape fits the legal fields
/// `l` at `d` and touches the placement fields `p`.
pub fn shape_4(l: Bitboard, p: Bitboard) -> (r: Bitboard)
    ensures
        forall|d: int| #[trigger] r.has(d) == shape_destination(4, |i: int| l.has(i), |i: int| p.has(i), d),
{
    let l21 = l.shr(21);
    let l42 = l.shr(42);
    let p42 = p.shr(42);
    let fits = l.and(l21).and(l42);
    let touches = p.or(p42);
    fits.and(touches)
}

/// All destinations of shape 5: bit `d` is set exactly when the shape fits the legal fields
/// `l` at `d` and touches the placement fields `p`.
pub fn shape_5(l: Bitboard, p: Bitboard) -> (r: Bitboard)
    ensures
        forall|d: int| #[trigger] r.has(d) == shape_destination(5, |i: int| l.has(i), |i: int| p.has(i), d),
{
    let l1 = l.shr(1);
    let l2 = l.shr(2);
    let l3 = l.shr(3);
    let p3 = p.shr(3);
    let fits = l.and(l1).and(l2).and(l3);
    let touches = p.or(p3);
    fits.and(touches)
}

/// All destinations of shape 6: bit `d` is set exactly when the shape fits the legal fields
/// `l` at `d` and touches the placement fields `p`.
pub fn shape_6(l: Bitboard, p: Bitboard) -> (r: Bitboard)
    ensures
        forall|d: int| #[trigger] r.has(d) == shape_destination(6, |i: int| l.has(i), |i: int| p.has(i), d),
{
    let l21 = l.shr(21);
    let l42 = l.shr(42);
    let l63 = l.shr(63);
    let p63 = p.shr(63);
    let fits = l.and(l21).and(l42).and(l63);
    let touches = p.or(p63);
    fits.and(touches)
}

/// All destinations of shape 7: bit `d` is set exactly when the shape fits the legal fields
/// `l` at `d` and touches the placement fields `p`.
pub fn shape_7(l: Bitboard, p: Bitboard) -> (r: Bitboard)
    ensures
        forall|d: int| #[trigger] r.has(d) == shape_destination(7, |i: int| l.has(i), |i: int| p.has(i), d),
{
    let l1 = l.shr(1);
    let l2 = l.shr(2);
    let l3 = l.shr(3);
    let l4 = l.shr(4);
    let p4 = p.shr(4);
    let fits = l.and(l1).and(l2).and(l3).and(l4);
    let touches = p.or(p4);
    fits.and(touches)
}

/// All destinations of shape 8: bit `d` is set exactly when the shape fits the legal fields
/// `l` at `d` and touches the placement fields `p`.
pub fn shape_8(l: Bitboard, p: Bitboard) -> (r: Bitboard)
    ensures
        forall|d: int| #[trigger] r.has(d) == shape_destination(8, |i: int| l.has(i), |i: int| p.has(i), d),
{
    let l21 = l.shr(21);
    let l42 = l.shr(42);
    let l63 = l.shr(63);
    let l84 = l.shr(84);
    let p84 = p.shr(84);
    let fits = l.and(l21).and(l42).and(l63).and(l84);
    let touches = p.or(p84);
    fits.and(touches)
}

/// All destinations of shape 9: bit `d` is set exactly when the shape fits the legal fields
/// `l` at `d` and touches the placement fields `p`.
pub fn shape_9(l: Bitboard, p: Bitboard) -> (r: Bitboard)
    ensures
        forall|d: int| #[trigger] r.has(d) == shape_destination(9, |i: int| l.has(i), |i: int| p.has(i), d),
{
    let l1 = l.shr(1);
    let l21 = l.shr(21);
    let l22 = l.shr(22);
    let p1 = p.shr(1);
    let p21 = p.shr(21);
    let p22 = p.shr(22);
    let fits = l.and(l1).and(l21).and(l22);
    let touches = p.or(p1).or(p21).or(p22);
    fits.and(touches)
}

/// All destinations of shape 10: bit `d` is set exactly when the shape fits the legal fields
/// `l` at `d` and touches the placement fields `p`.
pub fn shape_10(l: Bitboard, p: Bitboard) -> (r: Bitboard)
    ensures
        forall|d: int| #[trigger] r.has(d) == shape_destination(10, |i: int| l.has(i), |i: int| p.has(i), d),
{
    let l1 = l.shr(1);
    let l21 = l.shr(21);
    let l22 = l.shr(22);
    let l23 = l.shr(23);
    let l43 = l.shr(43);
    let p1 = p.shr(1);
    let p21 = p.shr(21);
    let p23 = p.shr(23);
    let p43 = p.shr(43);
    let fits = l1.and(l21).and(l22).and(l23).and(l43);
    let touches = p1.or(p21).or(p23).or(p43);
    fits.and(touches)
}

/// All destinations of shape 11: bit `d` is set exactly when the shape fits the legal fields
/// `l` at `d` and touches the placement fields `p`.
pub fn shape_11(l: Bitboard, p: Bitboard) -> (r: Bitboard)
    ensures
        forall|d: int| #[trigger] r.has(d) == shape_destination(11, |i: int| l.has(i), |i: int| p.has(i), d),
{
    let l21 = l.shr(21);
    let l22 = l.shr(22);
    let p21 = p.shr(21);
    let p22 = p.shr(22);
    let fits = l.and(l21).and(l22);
    let touches = p.or(p21).or(p22);
    fits.and(touches)
}

/// All destinations of shape 12: bit `d` is set exactly when the shape fits the legal fields
/// `l` at `d` and touches the placement fields `p`.
pub fn shape_12(l: Bitboard, p: Bitboard) -> (r: Bitboard)
    ensures
        forall|d: int| #[trigger] r.has(d) == shape_destination(12, |i: int| l.has(i), |i: int| p.has(i), d),
{
    let l1 = l.shr(1);
    let l21 = l.shr(21);
    let p1 = p.shr(1);
    let p21 = p.shr(21);
    let fits = l.and(l1).and(l21);
    let touches = p.or(p1).or(p21);
    fits.and(touches)
}

/// All destinations of shape 13: bit `d` is set exactly when the shape fits the legal fields
/// `l` at `d` and touches the placement fields `p`.
pub fn shape_13(l: Bitboard, p: Bitboard) -> (r: Bitboard)
    ensures
        forall|d: int| #[trigger] r.has(d) == shape_destination(13, |i: int| l.has(i), |i: int| p.has(i), d),
{
    let l1 = l.shr(1);
    let l22 = l.shr(22);
    let p1 = p.shr(1);
    let p22 = p.shr(22);
    let fits = l.and(l1).and(l22);
    let touches = p.or(p1).or(p22);
    fits.and(touches)
}

/// All destinations of shape 14: bit `d` is set exactly when the shape fits the legal fields
/// `l` at `d` and touches the placement fields `p`.
pub fn shape_14(l: Bitboard, p: Bitboard) -> (r: Bitboard)
    ensures
        forall|d: int| #[trigger] r.has(d) == shape_destination(14, |i: int| l.has(i), |i: int| p.has(i), d),
{
    let l1 = l.shr(1);
    let l21 = l.shr(21);
    let l22 = l.shr(22);
    let p1 = p.shr(1);
    let p21 = p.shr(21);
    let p22 = p.shr(22);
    let fits = l1.and(l21).and(l22);
    let touches = p1.or(p21).or(p22);
    fits.and(touches)
}

/// All destinations of shape 15: bit `d` is set exactly when the shape fits the legal fields
/// `l` at `d` and touches the placement fields `p`.
pub fn shape_15(l: Bitboard, p: Bitboard) -> (r: Bitboard)
    ensures
        forall|d: int| #[trigger] r.has(d) == shape_destination(15, |i: int| l.has(i), |i: int| p.has(i), d),
{
    let l1 = l.shr(1);
    let l21 = l.shr(21);
    let l42 = l.shr(42);
    let p1 = p.shr(1);
    let p42 = p.shr(42);
    let fits = l.and(l1).and(l21).and(l42);
    let touches = p.or(p1).or(p42);
    fits.and(touches)
}

/// All destinations of shape 16: bit `d` is set exactly when the shape fits the legal fields
/// `l` at `d` and touches the placement fields `p`.
pub fn shape_16(l: Bitboard, p: Bitboard) -> (r: Bitboard)
    ensures
        forall|d: int| #[trigger] r.has(d) == shape_destination(16, |i: int| l.has(i), |i: int| p.has(i), d),
{
    let l1 = l.shr(1);
    let l22 = l.shr(22);
    let l43 = l.shr(43);
    let p1 = p.shr(1);
    let p43 = p.shr(43);
    let fits = l.and(l1).and(l22).and(l43);
    let touches = p.or(p1).or(p43);
    fits.and(touches)
}

/// All destinations of shape 17: bit `d` is set exactly when the shape fits the legal fields
/// `l` at `d` and touches the placement fields `p`.
pub fn shape_17(l: Bitboard, p: Bitboard) -> (r: Bitboard)
    ensures
        forall|d: int| #[trigger] r.has(d) == shape_destination(17, |i: int| l.has(i), |i: int| p.has(i), d),
{
    let l1 = l.shr(1);
    let l22 = l.shr(22);
    let l42 = l.shr(42);
    let l43 = l.shr(43);
    let p1 = p.shr(1);
    let p42 = p.shr(42);
    let p43 = p.shr(43);
    let fits = l1.and(l22).and(l42).and(l43);
    let touches = p1.or(p42).or(p43);
    fits.and(touches)
}

/// All destinations of shape 18: bit `d` is set exactly when the shape fits the legal fields
/// `l` at `d` and touches the placement fields `p`.
pub fn shape_18(l: Bitboard, p: Bitboard) -> (r: Bitboard)
    ensures
        forall|d: int| #[trigger] r.has(d) == shape_destination(18, |i: int| l.has(i), |i: int| p.has(i), d),
{
    let l21 = l.shr(21);
    let l42 = l.shr(42);
    let l43 = l.shr(43);
    let p42 = p.shr(42);
    let p43 = p.shr(43);
    let fits = l.and(l21).and(l42).and(l43);
    let touches = p.or(p42).or(p43);
    fits.and(touches)
}

/// All destinations of shape 19: bit `d` is set exactly when the shape fits the legal fields
/// `l` at `d` and touches the placement fields `p`.
pub fn shape_19(l: Bitboard, p: Bitboard) -> (r: Bitboard)
    ensures
        forall|d: int| #[trigger] r.has(d) == shape_destination(19, |i: int| l.has(i), |i: int| p.has(i), d),
{
    let l21 = l.shr(21);
    let l22 = l.shr(22);
    let l23 = l.shr(23);
    let p21 = p.shr(21);
    let p23 = p.shr(23);
    let fits = l.and(l21).and(l22).and(l23);
    let touches = p.or(p21).or(p23);
    fits.and(touches)
}

/// All destinations of shape 20: bit `d` is set exactly when the shape fits the legal fields
/// `l` at `d` and touches the placement fields `p`.
pub fn shape_20(l: Bitboard, p: Bitboard) -> (r: Bitboard)
    ensures
        forall|d: int| #[trigger] r.has(d) == shape_destination(20, |i: int| l.has(i), |i: int| p.has(i), d),
{
    let l1 = l.shr(1);
    let l2 = l.shr(2);
    let l21 = l.shr(21);
    let p2 = p.shr(2);
    let p21 = p.shr(21);
    let fits = l.and(l1).and(l2).and(l21);
    let touches = p.or(p2).or(p21);
    fits.and(touches)
}

/// All destinations of shape 21: bit `d` is set exactly when the shape fits the legal fields
/// `l` at `d` and touches the placement fields `p`.
pub fn shape_21(l: Bitboard, p: Bitboard) -> (r: Bitboard)
    ensures
        forall|d: int| #[trigger] r.has(d) == shape_destination(21, |i: int| l.has(i), |i: int| p.has(i), d),
{
    let l1 = l.shr(1);
    let l2 = l.shr(2);
    let l23 = l.shr(23);
    let p2 = p.shr(2);
    let p23 = p.shr(23);
    let fits = l.and(l1).and(l2).and(l23);
    let touches = p.or(p2).or(p23);
    fits.and(touches)
}

/// All destinations of shape 22: bit `d` is set exactly when the shape fits the legal fields
/// `l` at `d` and touches the placement fields `p`.
pub fn shape_22(l: Bitboard, p: Bitboard) -> (r: Bitboard)
    ensures
        forall|d: int| #[trigger] r.has(d) == shape_destination(22, |i: int| l.has(i), |i: int| p.has(i), d),
{
    let l2 = l.shr(2);
    let l21 = l.shr(21);
    let l22 = l.shr(22);
    let l23 = l.shr(23);
    let p2 = p.shr(2);
    let p21 = p.shr(21);
    let p23 = p.shr(23);
    let fits = l2.and(l21).and(l22).and(l23);
    let touches = p2.or(p21).or(p23);
    fits.and(touches)
}

/// All destinations of shape 23: bit `d` is set exactly when the shape fits the legal fields
/// `l` at `d` and touches the placement fields `p`.
pub fn shape_23(l: Bitboard, p: Bitboard) -> (r: Bitboard)
    ensures
        forall|d: int| #[trigger] r.has(d) == shape_destination(23, |i: int| l.has(i), |i: int| p.has(i), d),
{
    let l1 = l.shr(1);
    let l2 = l.shr(2);
    let l3 = l.shr(3);
    let l24 = l.shr(24);
    let p3 = p.shr(3);
    let p24 = p.shr(24);
    let fits = l.and(l1).and(l2).and(l3).and(l24);
    let touches = p.or(p3).or(p24);
    fits.and(touches)
}

/// All destinations of shape 24: bit `d` is set exactly when the shape fits the legal fields
/// `l` at `d` and touches the placement fields `p`.
pub fn shape_24(l: Bitboard, p: Bitboard) -> (r: Bitboard)
    ensures
        forall|d: int| #[trigger] r.has(d) == shape_destination(24, |i: int| l.has(i), |i: int| p.has(i), d),
{
    let l1 = l.shr(1);
    let l2 = l.shr(2);
    let l3 = l.shr(3);
    let l21 = l.shr(21);
    let p3 = p.shr(3);
    let p21 = p.shr(21);
    let fits = l.and(l1).and(l2).and(l3).and(l21);
    let touches = p.or(p3).or(p21);
    fits.and(touches)
}

/// All destinations of shape 25: bit `d` is set exactly when the shape fits the legal fields
/// `l` at `d` and touches the placement fields `p`.
pub fn shape_25(l: Bitboard, p: Bitboard) -> (r: Bitboard)
    ensures
        forall|d: int| #[trigger] r.has(d) == shape_destination(25, |i: int| l.has(i), |i: int| p.has(i), d),
{
    let l21 = l.shr(21);
    let l22 = l.shr(22);
    let l23 = l.shr(23);
    let l24 = l.shr(24);
    let p21 = p.shr(21);
    let p24 = p.shr(24);
    let fits = l.and(l21).and(l22).and(l23).and(l24);
    let touches = p.or(p21).or(p24);
    fits.and(touches)
}

/// All destinations of shape 26: bit `d` is set exactly when the shape fits the legal fields
/// `l` at `d` and touches the placement fields `p`.
pub fn shape_26(l: Bitboard, p: Bitboard) -> (r: Bitboard)
    ensures
        forall|d: int| #[trigger] r.has(d) == shape_destination(26, |i: int| l.has(i), |i: int| p.has(i), d),
{
    let l3 = l.shr(3);
    let l21 = l.shr(21);
    let l22 = l.shr(22);
    let l23 = l.shr(23);
    let l24 = l.shr(24);
    let p3 = p.shr(3);
    let p21 = p.shr(21);
    let p24 = p.shr(24);
    let fits = l3.and(l21).and(l22).and(l23).and(l24);
    let touches = p3.or(p21).or(p24);
    fits.and(touches)
}

/// All destinations of shape 27: bit `d` is set exactly when the shape fits the legal fields
/// `l` at `d` and touches the placement fields `p`.
pub fn shape_27(l: Bitboard, p: Bitboard) -> (r: Bitboard)
    ensures
        forall|d: int| #[trigger] r.has(d) == shape_destination(27, |i: int| l.has(i), |i: int| p.has(i), d),
{
    let l1 = l.shr(1);
    let l21 = l.shr(21);
    let l42 = l.shr(42);
    let l63 = l.shr(63);
    let p1 = p.shr(1);
    let p63 = p.shr(63);
    let fits = l.and(l1).and(l21).and(l42).and(l63);
    let touches = p.or(p1).or(p63);
    fits.and(touches)
}

/// All destinations of shape 28: bit `d` is set exactly when the shape fits the legal fields
/// `l` at `d` and touches the placement fields `p`.
pub fn shape_28(l: Bitboard, p: Bitboard) -> (r: Bitboard)
    ensures
        forall|d: int| #[trigger] r.has(d) == shape_destination(28, |i: int| l.has(i), |i: int| p.has(i), d),
{
    let l21 = l.shr(21);
    let l42 = l.shr(42);
    let l63 = l.shr(63);
    let l64 = l.shr(64);
    let p63 = p.shr(63);
    let p64 = p.shr(64);
    let fits = l.and(l21).and(l42).and(l63).and(l64);
    let touches = p.or(p63).or(p64);
    fits.and(touches)
}

/// All destinations of shape 29: bit `d` is set exactly when the shape fits the legal fields
/// `l` at `d` and touches the placement fields `p`.
pub fn shape_29(l: Bitboard, p: Bitboard) -> (r: Bitboard)
    ensures
        forall|d: int| #[trigger] r.has(d) == shape_destination(29, |i: int| l.has(i), |i: int| p.has(i), d),
{
    let l1 = l.shr(1);
    let l22 = l.shr(22);
    let l43 = l.shr(43);
    let l64 = l.shr(64);
    let p1 = p.shr(1);
    let p64 = p.shr(64);
    let fits = l.and(l1).and(l22).and(l43).and(l64);
    let touches = p.or(p1).or(p64);
    fits.and(touches)
}

/// All destinations of shape 30: bit `d` is set exactly when the shape fits the legal fields
/// `l` at `d` and touches the placement fields `p`.
pub fn shape_30(l: Bitboard, p: Bitboard) -> (r: Bitboard)
    ensures
        forall|d: int| #[trigger] r.has(d) == shape_destination(30, |i: int| l.has(i), |i: int| p.has(i), d),
{
    let l1 = l.shr(1);
    let l22 = l.shr(22);
    let l43 = l.shr(43);
    let l63 = l.shr(63);
    let l64 = l.shr(64);
    let p1 = p.shr(1);
    let p63 = p.shr(63);
    let p64 = p.shr(64);
    let fits = l1.and(l22).and(l43).and(l63).and(l64);
    let touches = p1.or(p63).or(p64);
    fits.and(touches)
}

/// All destinations of shape 31: bit `d` is set exactly when the shape fits the legal fields
/// `l` at `d` and touches the placement fields `p`.
pub fn shape_31(l: Bitboard, p: Bitboard) -> (r: Bitboard)
    ensures
        forall|d: int| #[trigger] r.has(d) == shape_destination(31, |i: int| l.has(i), |i: int| p.has(i), d),
{
    let l1 = l.shr(1);
    let l2 = l.shr(2);
    let l22 = l.shr(22);
    let l43 = l.shr(43);
    let p2 = p.shr(2);
    let p43 = p.shr(43);
    let fits = l.and(l1).and(l2).and(l22).and(l43);
    let touches = p.or(p2).or(p43);
    fits.and(touches)
}

/// All destinations of shape 32: bit `d` is set exactly when the shape fits the legal fields
/// `l` at `d` and touches the placement fields `p`.
pub fn shape_32(l: Bitboard, p: Bitboard) -> (r: Bitboard)
    ensures
        forall|d: int| #[trigger] r.has(d) == shape_destination(32, |i: int| l.has(i), |i: int| p.has(i), d),
{
    let l1 = l.shr(1);
    let l22 = l.shr(22);
    let l42 = l.shr(42);
    let l43 = l.shr(43);
    let l44 = l.shr(44);
    let p1 = p.shr(1);
    let p42 = p.shr(42);
    let p44 = p.shr(44);
    let fits = l1.and(l22).and(l42).and(l43).and(l44);
    let touches = p1.or(p42).or(p44);
    fits.and(touches)
}

/// All destinations of shape 33: bit `d` is set exactly when the shape fits the legal fields
/// `l` at `d` and touches the placement fields `p`.
pub fn shape_33(l: Bitboard, p: Bitboard) -> (r: Bitboard)
    ensures
        forall|d: int| #[trigger] r.has(d) == shape_destination(33, |i: int| l.has(i), |i: int| p.has(i), d),
{
    let l21 = l.shr(21);
    let l22 = l.shr(22);
    let l23 = l.shr(23);
    let l42 = l.shr(42);
    let p23 = p.shr(23);
    let p42 = p.shr(42);
    let fits = l.and(l21).and(l22).and(l23).and(l42);
    let touches = p.or(p23).or(p42);
    fits.and(touches)
}

/// All destinations of shape 34: bit `d` is set exactly when the shape fits the legal fields
/// `l` at `d` and touches the placement fields `p`.
pub fn shape_34(l: Bitboard, p: Bitboard) -> (r: Bitboard)
    ensures
        forall|d: int| #[trigger] r.has(d) == shape_destination(34, |i: int| l.has(i), |i: int| p.has(i), d),
{
    let l2 = l.shr(2);
    let l21 = l.shr(21);
    let l22 = l.shr(22);
    let l23 = l.shr(23);
    let l44 = l.shr(44);
    let p2 = p.shr(2);
    let p21 = p.shr(21);
    let p44 = p.shr(44);
    let fits = l2.and(l21).and(l22).and(l23).and(l44);
    let touches = p2.or(p21).or(p44);
    fits.and(touches)
}

/// All destinations of shape 35: bit `d` is set exactly when the shape fits the legal fields
/// `l` at `d` and touches the placement fields `p`.
pub fn shape_35(l: Bitboard, p: Bitboard) -> (r: Bitboard)
    ensures
        forall|d: int| #[trigger] r.has(d) == shape_destination(35, |i: int| l.has(i), |i: int| p.has(i), d),
{
    let l1 = l.shr(1);
    let l2 = l.shr(2);
    let l22 = l.shr(22);
    let p2 = p.shr(2);
    let p22 = p.shr(22);
    let fits = l.and(l1).and(l2).and(l22);
    let touches = p.or(p2).or(p22);
    fits.and(touches)
}

/// All destinations of shape 36: bit `d` is set exactly when the shape fits the legal fields
/// `l` at `d` and touches the placement fields `p`.
pub fn shape_36(l: Bitboard, p: Bitboard) -> (r: Bitboard)
    ensures
        forall|d: int| #[trigger] r.has(d) == shape_destination(36, |i: int| l.has(i), |i: int| p.has(i), d),
{
    let l1 = l.shr(1);
    let l21 = l.shr(21);
    let l22 = l.shr(22);
    let l23 = l.shr(23);
    let p1 = p.shr(1);
    let p21 = p.shr(21);
    let p23 = p.shr(23);
    let fits = l1.and(l21).and(l22).and(l23);
    let touches = p1.or(p21).or(p23);
    fits.and(touches)
}

/// All destinations of shape 37: bit `d` is set exactly when the shape fits the legal fields
/// `l` at `d` and touches the placement fields `p`.
pub fn shape_37(l: Bitboard, p: Bitboard) -> (r: Bitboard)
    ensures
        forall|d: int| #[trigger] r.has(d) == shape_destination(37, |i: int| l.has(i), |i: int| p.has(i), d),
{
    let l21 = l.shr(21);
    let l22 = l.shr(22);
    let l42 = l.shr(42);
    let p22 = p.shr(22);
    let p42 = p.shr(42);
    let fits = l.and(l21).and(l22).and(l42);
    let touches = p.or(p22).or(p42);
    fits.and(touches)
}

/// All destinations of shape 38: bit `d` is set exactly when the shape fits the legal fields
/// `l` at `d` and touches the placement fields `p`.
pub fn shape_38(l: Bitboard, p: Bitboard) -> (r: Bitboard)
    ensures
        forall|d: int| #[trigger] r.has(d) == shape_destination(38, |i: int| l.has(i), |i: int| p.has(i), d),
{
    let l1 = l.shr(1);
    let l21 = l.shr(21);
    let l22 = l.shr(22);
    let l43 = l.shr(43);
    let p1 = p.shr(1);
    let p21 = p.shr(21);
    let p43 = p.shr(43);
    let fits = l1.and(l21).and(l22).and(l43);
    let touches = p1.or(p21).or(p43);
    fits.and(touches)
}

/// All destinations of shape 39: bit `d` is set exactly when the shape fits the legal fields
/// `l` at `d` and touches the placement fields `p`.
pub fn shape_39(l: Bitboard, p: Bitboard) -> (r: Bitboard)
    ensures
        forall|d: int| #[trigger] r.has(d) == shape_destination(39, |i: int| l.has(i), |i: int| p.has(i), d),
{
    let l1 = l.shr(1);
    let l2 = l.shr(2);
    let l21 = l.shr(21);
    let l22 = l.shr(22);
    let p1 = p.shr(1);
    let p2 = p.shr(2);
    let p21 = p.shr(21);
    let p22 = p.shr(22);
    let fits = l1.and(l2).and(l21).and(l22);
    let touches = p1.or(p2).or(p21).or(p22);
    fits.and(touches)
}

/// All destinations of shape 40: bit `d` is set exactly when the shape fits the legal fields
/// `l` at `d` and touches the placement fields `p`.
pub fn shape_40(l: Bitboard, p: Bitboard) -> (r: Bitboard)
    ensures
        forall|d: int| #[trigger] r.has(d) == shape_destination(40, |i: int| l.has(i), |i: int| p.has(i), d),
{
    let l1 = l.shr(1);
    let l22 = l.shr(22);
    let l23 = l.shr(23);
    let p1 = p.shr(1);
    let p22 = p.shr(22);
    let p23 = p.shr(23);
    let fits = l.and(l1).and(l22).and(l23);
    let touches = p.or(p1).or(p22).or(p23);
    fits.and(touches)
}

/// All destinations of shape 41: bit `d` is set exactly when the shape fits the legal fields
/// `l` at `d` and touches the placement fields `p`.
pub fn shape_41(l: Bitboard, p: Bitboard) -> (r: Bitboard)
    ensures
        forall|d: int| #[trigger] r.has(d) == shape_destination(41, |i: int| l.has(i), |i: int| p.has(i), d),
{
    let l1 = l.shr(1);
    let l21 = l.shr(21);
    let l22 = l.shr(22);
    let l42 = l.shr(42);
    let p1 = p.shr(1);
    let p21 = p.shr(21);
    let p22 = p.shr(22);
    let p42 = p.shr(42);
    let fits = l1.and(l21).and(l22).and(l42);
    let touches = p1.or(p21).or(p22).or(p42);
    fits.and(touches)
}

/// All destinations of shape 42: bit `d` is set exactly when the shape fits the legal fields
/// `l` at `d` and touches the placement fields `p`.
pub fn shape_42(l: Bitboard, p: Bitboard) -> (r: Bitboard)
    ensures
        forall|d: int| #[trigger] r.has(d) == shape_destination(42, |i: int| l.has(i), |i: int| p.has(i), d),
{
    let l21 = l.shr(21);
    let l22 = l.shr(22);
    let l43 = l.shr(43);
    let p21 = p.shr(21);
    let p22 = p.shr(22);
    let p43 = p.shr(43);
    let fits = l.and(l21).and(l22).and(l43);
    let touches = p.or(p21).or(p22).or(p43);
    fits.and(touches)
}

/// All destinations of shape 43: bit `d` is set exactly when the shape fits the legal fields
/// `l` at `d` and touches the placement fields `p`.
pub fn shape_43(l: Bitboard, p: Bitboard) -> (r: Bitboard)
    ensures
        forall|d: int| #[trigger] r.has(d) == shape_destination(43, |i: int| l.has(i), |i: int| p.has(i), d),
{
    let l21 = l.shr(21);
    let l22 = l.shr(22);
    let l23 = l.shr(23);
    let l44 = l.shr(44);
    let p21 = p.shr(21);
    let p23 = p.shr(23);
    let p44 = p.shr(44);
    let fits = l.and(l21).and(l22).and(l23).and(l44);
    let touches = p.or(p21).or(p23).or(p44);
    fits.and(touches)
}

/// All destinations of shape 44: bit `d` is set exactly when the shape fits the legal fields
/// `l` at `d` and touches the placement fields `p`.
pub fn shape_44(l: Bitboard, p: Bitboard) -> (r: Bitboard)
    ensures
        forall|d: int| #[trigger] r.has(d) == shape_destination(44, |i: int| l.has(i), |i: int| p.has(i), d),
{
    let l2 = l.shr(2);
    let l21 = l.shr(21);
    let l22 = l.shr(22);
    let l23 = l.shr(23);
    let l42 = l.shr(42);
    let p2 = p.shr(2);
    let p21 = p.shr(21);
    let p23 = p.shr(23);
    let p42 = p.shr(42);
    let fits = l2.and(l21).and(l22).and(l23).and(l42);
    let touches = p2.or(p21).or(p23).or(p42);
    fits.and(touches)
}

/// All destinations of shape 45: bit `d` is set exactly when the shape fits the legal fields
/// `l` at `d` and touches the placement fields `p`.
pub fn shape_45(l: Bitboard, p: Bitboard) -> (r: Bitboard)
    ensures
        forall|d: int| #[trigger] r.has(d) == shape_destination(45, |i: int| l.has(i), |i: int| p.has(i), d),
{
    let l1 = l.shr(1);
    let l2 = l.shr(2);
    let l22 = l.shr(22);
    let l42 = l.shr(42);
    let l43 = l.shr(43);
    let p1 = p.shr(1);
    let p2 = p.shr(2);
    let p42 = p.shr(42);
    let p43 = p.shr(43);
    let fits = l1.and(l2).and(l22).and(l42).and(l43);
    let touches = p1.or(p2).or(p42).or(p43);
    fits.and(touches)
}

/// All destinations of shape 46: bit `d` is set exactly when the shape fits the legal fields
/// `l` at `d` and touches the placement fields `p`.
pub fn shape_46(l: Bitboard, p: Bitboard) -> (r: Bitboard)
    ensures
        forall|d: int| #[trigger] r.has(d) == shape_destination(46, |i: int| l.has(i), |i: int| p.has(i), d),
{
    let l1 = l.shr(1);
    let l22 = l.shr(22);
    let l43 = l.shr(43);
    let l44 = l.shr(44);
    let p1 = p.shr(1);
    let p43 = p.shr(43);
    let p44 = p.shr(44);
    let fits = l.and(l1).and(l22).and(l43).and(l44);
    let touches = p.or(p1).or(p43).or(p44);
    fits.and(touches)
}

/// All destinations of shape 47: bit `d` is set exactly when the shape fits the legal fields
/// `l` at `d` and touches the placement fields `p`.
pub fn shape_47(l: Bitboard, p: Bitboard) -> (r: Bitboard)
    ensures
        forall|d: int| #[trigger] r.has(d) == shape_destination(47, |i: int| l.has(i), |i: int| p.has(i), d),
{
    let l1 = l.shr(1);
    let l2 = l.shr(2);
    let l21 = l.shr(21);
    let l23 = l.shr(23);
    let p2 = p.shr(2);
    let p21 = p.shr(21);
    let p23 = p.shr(23);
    let fits = l.and(l1).and(l2).and(l21).and(l23);
    let touches = p.or(p2).or(p21).or(p23);
    fits.and(touches)
}

/// All destinations of shape 48: bit `d` is set exactly when the shape fits the legal fields
/// `l` at `d` and touches the placement fields `p`.
pub fn shape_48(l: Bitboard, p: Bitboard) -> (r: Bitboard)
    ensures
        forall|d: int| #[trigger] r.has(d) == shape_destination(48, |i: int| l.has(i), |i: int| p.has(i), d),
{
    let l2 = l.shr(2);
    let l21 = l.shr(21);
    let l22 = l.shr(22);
    let l23 = l.shr(23);
    let p2 = p.shr(2);
    let p21 = p.shr(21);
    let p23 = p.shr(23);
    let fits = l.and(l2).and(l21).and(l22).and(l23);
    let touches = p.or(p2).or(p21).or(p23);
    fits.and(touches)
}

/// All destinations of shape 49: bit `d` is set exactly when the shape fits the legal fields
/// `l` at `d` and touches the placement fields `p`.
pub fn shape_49(l: Bitboard, p: Bitboard) -> (r: Bitboard)
    ensures
        forall|d: int| #[trigger] r.has(d) == shape_destination(49, |i: int| l.has(i), |i: int| p.has(i), d),
{
    let l1 = l.shr(1);
    let l21 = l.shr(21);
    let l42 = l.shr(42);
    let l43 = l.shr(43);
    let p1 = p.shr(1);
    let p42 = p.shr(42);
    let p43 = p.shr(43);
    let fits = l.and(l1).and(l21).and(l42).and(l43);
    let touches = p.or(p1).or(p42).or(p43);
    fits.and(touches)
}

/// All destinations of shape 50: bit `d` is set exactly when the shape fits the legal fields
/// `l` at `d` and touches the placement fields `p`.
pub fn shape_50(l: Bitboard, p: Bitboard) -> (r: Bitboard)
    ensures
        forall|d: int| #[trigger] r.has(d) == shape_destination(50, |i: int| l.has(i), |i: int| p.has(i), d),
{
    let l1 = l.shr(1);
    let l22 = l.shr(22);
    let l42 = l.shr(42);
    let l43 = l.shr(43);
    let p1 = p.shr(1);
    let p42 = p.shr(42);
    let p43 = p.shr(43);
    let fits = l.and(l1).and(l22).and(l42).and(l43);
    let touches = p.or(p1).or(p42).or(p43);
    fits.and(touches)
}

/// All destinations of shape 51: bit `d` is set exactly when the shape fits the legal fields
/// `l` at `d` and touches the placement fields `p`.
pub fn shape_51(l: Bitboard, p: Bitboard) -> (r: Bitboard)
    ensures
        forall|d: int| #[trigger] r.has(d) == shape_destination(51, |i: int| l.has(i), |i: int| p.has(i), d),
{
    let l1 = l.shr(1);
    let l22 = l.shr(22);
    let l23 = l.shr(23);
    let l42 = l.shr(42);
    let l43 = l.shr(43);
    let p1 = p.shr(1);
    let p23 = p.shr(23);
    let p42 = p.shr(42);
    let p43 = p.shr(43);
    let fits = l1.and(l22).and(l23).and(l42).and(l43);
    let touches = p1.or(p23).or(p42).or(p43);
    fits.and(touches)
}

/// All destinations of shape 52: bit `d` is set exactly when the shape fits the legal fields
/// `l` at `d` and touches the placement fields `p`.
pub fn shape_52(l: Bitboard, p: Bitboard) -> (r: Bitboard)
    ensures
        forall|d: int| #[trigger] r.has(d) == shape_destination(52, |i: int| l.has(i), |i: int| p.has(i), d),
{
    let l1 = l.shr(1);
    let l21 = l.shr(21);
    let l22 = l.shr(22);
    let l43 = l.shr(43);
    let l44 = l.shr(44);
    let p1 = p.shr(1);
    let p21 = p.shr(21);
    let p43 = p.shr(43);
    let p44 = p.shr(44);
    let fits = l1.and(l21).and(l22).and(l43).and(l44);
    let touches = p1.or(p21).or(p43).or(p44);
    fits.and(touches)
}

/// All destinations of shape 53: bit `d` is set exactly when the shape fits the legal fields
/// `l` at `d` and touches the placement fields `p`.
pub fn shape_53(l: Bitboard, p: Bitboard) -> (r: Bitboard)
    ensures
        forall|d: int| #[trigger] r.has(d) == shape_destination(53, |i: int| l.has(i), |i: int| p.has(i), d),
{
    let l1 = l.shr(1);
    let l2 = l.shr(2);
    let l21 = l.shr(21);
    let l22 = l.shr(22);
    let l43 = l.shr(43);
    let p1 = p.shr(1);
    let p2 = p.shr(2);
    let p21 = p.shr(21);
    let p43 = p.shr(43);
    let fits = l1.and(l2).and(l21).and(l22).and(l43);
    let touches = p1.or(p2).or(p21).or(p43);
    fits.and(touches)
}

/// All destinations of shape 54: bit `d` is set exactly when the shape fits the legal fields
/// `l` at `d` and touches the placement fields `p`.
pub fn shape_54(l: Bitboard, p: Bitboard) -> (r: Bitboard)
    ensures
        forall|d: int| #[trigger] r.has(d) == shape_destination(54, |i: int| l.has(i), |i: int| p.has(i), d),
{
    let l1 = l.shr(1);
    let l22 = l.shr(22);
    let l23 = l.shr(23);
    let l43 = l.shr(43);
    let p1 = p.shr(1);
    let p23 = p.shr(23);
    let p43 = p.shr(43);
    let fits = l.and(l1).and(l22).and(l23).and(l43);
    let touches = p.or(p1).or(p23).or(p43);
    fits.and(touches)
}

/// All destinations of shape 55: bit `d` is set exactly when the shape fits the legal fields
/// `l` at `d` and touches the placement fields `p`.
pub fn shape_55(l: Bitboard, p: Bitboard) -> (r: Bitboard)
    ensures
        forall|d: int| #[trigger] r.has(d) == shape_destination(55, |i: int| l.has(i), |i: int| p.has(i), d),
{
    let l2 = l.shr(2);
    let l21 = l.shr(21);
    let l22 = l.shr(22);
    let l23 = l.shr(23);
    let l43 = l.shr(43);
    let p2 = p.shr(2);
    let p21 = p.shr(21);
    let p23 = p.shr(23);
    let p43 = p.shr(43);
    let fits = l2.and(l21).and(l22).and(l23).and(l43);
    let touches = p2.or(p21).or(p23).or(p43);
    fits.and(touches)
}

/// All destinations of shape 56: bit `d` is set exactly when the shape fits the legal fields
/// `l` at `d` and touches the placement fields `p`.
pub fn shape_56(l: Bitboard, p: Bitboard) -> (r: Bitboard)
    ensures
        forall|d: int| #[trigger] r.has(d) == shape_destination(56, |i: int| l.has(i), |i: int| p.has(i), d),
{
    let l21 = l.shr(21);
    let l22 = l.shr(22);
    let l23 = l.shr(23);
    let l43 = l.shr(43);
    let p21 = p.shr(21);
    let p23 = p.shr(23);
    let p43 = p.shr(43);
    let fits = l.and(l21).and(l22).and(l23).and(l43);
    let touches = p.or(p21).or(p23).or(p43);
    fits.and(touches)
}

/// All destinations of shape 57: bit `d` is set exactly when the shape fits the legal fields
/// `l` at `d` and touches the placement fields `p`.
pub fn shape_57(l: Bitboard, p: Bitboard) -> (r: Bitboard)
    ensures
        forall|d: int| #[trigger] r.has(d) == shape_destination(57, |i: int| l.has(i), |i: int| p.has(i), d),
{
    let l1 = l.shr(1);
    let l21 = l.shr(21);
    let l22 = l.shr(22);
    let l23 = l.shr(23);
    let l44 = l.shr(44);
    let p1 = p.shr(1);
    let p21 = p.shr(21);
    let p23 = p.shr(23);
    let p44 = p.shr(44);
    let fits = l1.and(l21).and(l22).and(l23).and(l44);
    let touches = p1.or(p21).or(p23).or(p44);
    fits.and(touches)
}

/// All destinations of shape 58: bit `d` is set exactly when the shape fits the legal fields
/// `l` at `d` and touches the placement fields `p`.
pub fn shape_58(l: Bitboard, p: Bitboard) -> (r: Bitboard)
    ensures
        forall|d: int| #[trigger] r.has(d) == shape_destination(58, |i: int| l.has(i), |i: int| p.has(i), d),
{
    let l1 = l.shr(1);
    let l21 = l.shr(21);
    let l22 = l.shr(22);
    let l23 = l.shr(23);
    let l42 = l.shr(42);
    let p1 = p.shr(1);
    let p21 = p.shr(21);
    let p23 = p.shr(23);
    let p42 = p.shr(42);
    let fits = l1.and(l21).and(l22).and(l23).and(l42);
    let touches = p1.or(p21).or(p23).or(p42);
    fits.and(touches)
}

/// All destinations of shape 59: bit `d` is set exactly when the shape fits the legal fields
/// `l` at `d` and touches the placement fields `p`.
pub fn shape_59(l: Bitboard, p: Bitboard) -> (r: Bitboard)
    ensures
        forall|d: int| #[trigger] r.has(d) == shape_destination(59, |i: int| l.has(i), |i: int| p.has(i), d),
{
    let l21 = l.shr(21);
    let l22 = l.shr(22);
    let l43 = l.shr(43);
    let l44 = l.shr(44);
    let p21 = p.shr(21);
    let p22 = p.shr(22);
    let p43 = p.shr(43);
    let p44 = p.shr(44);
    let fits = l.and(l21).and(l22).and(l43).and(l44);
    let touches = p.or(p21).or(p22).or(p43).or(p44);
    fits.and(touches)
}

/// All destinations of shape 60: bit `d` is set exactly when the shape fits the legal fields
/// `l` at `d` and touches the placement fields `p`.
pub fn shape_60(l: Bitboard, p: Bitboard) -> (r: Bitboard)
    ensures
        forall|d: int| #[trigger] r.has(d) == shape_destination(60, |i: int| l.has(i), |i: int| p.has(i), d),
{
    let l2 = l.shr(2);
    let l22 = l.shr(22);
    let l23 = l.shr(23);
    let l42 = l.shr(42);
    let l43 = l.shr(43);
    let p2 = p.shr(2);
    let p22 = p.shr(22);
    let p23 = p.shr(23);
    let p42 = p.shr(42);
    let p43 = p.shr(43);
    let fits = l2.and(l22).and(l23).and(l42).and(l43);
    let touches = p2.or(p22).or(p23).or(p42).or(p43);
    fits.and(touches)
}

/// All destinations of shape 61: bit `d` is set exactly when the shape fits the legal fields
/// `l` at `d` and touches the placement fields `p`.
pub fn shape_61(l: Bitboard, p: Bitboard) -> (r: Bitboard)
    ensures
        forall|d: int| #[trigger] r.has(d) == shape_destination(61, |i: int| l.has(i), |i: int| p.has(i), d),
{
    let l1 = l.shr(1);
    let l22 = l.shr(22);
    let l23 = l.shr(23);
    let l44 = l.shr(44);
    let p1 = p.shr(1);
    let p22 = p.shr(22);
    let p23 = p.shr(23);
    let p44 = p.shr(44);
    let fits = l.and(l1).and(l22).and(l23).and(l44);
    let touches = p.or(p1).or(p22).or(p23).or(p44);
    fits.and(touches)
}

/// All destinations of shape 62: bit `d` is set exactly when the shape fits the legal fields
/// `l` at `d` and touches the placement fields `p`.
pub fn shape_62(l: Bitboard, p: Bitboard) -> (r: Bitboard)
    ensures
        forall|d: int| #[trigger] r.has(d) == shape_destination(62, |i: int| l.has(i), |i: int| p.has(i), d),
{
    let l1 = l.shr(1);
    let l2 = l.shr(2);
    let l21 = l.shr(21);
    let l22 = l.shr(22);
    let l42 = l.shr(42);
    let p1 = p.shr(1);
    let p2 = p.shr(2);
    let p21 = p.shr(21);
    let p22 = p.shr(22);
    let p42 = p.shr(42);
    let fits = l1.and(l2).and(l21).and(l22).and(l42);
    let touches = p1.or(p2).or(p21).or(p22).or(p42);
    fits.and(touches)
}

/// All destinations of shape 63: bit `d` is set exactly when the shape fits the legal fields
/// `l` at `d` and touches the placement fields `p`.
pub fn shape_63(l: Bitboard, p: Bitboard) -> (r: Bitboard)
    ensures
        forall|d: int| #[trigger] r.has(d) == shape_destination(63, |i: int| l.has(i), |i: int| p.has(i), d),
{
    let l1 = l.shr(1);
    let l22 = l.shr(22);
    let l42 = l.shr(42);
    let l43 = l.shr(43);
    let l63 = l.shr(63);
    let p1 = p.shr(1);
    let p42 = p.shr(42);
    let p43 = p.shr(43);
    let p63 = p.shr(63);
    let fits = l1.and(l22).and(l42).and(l43).and(l63);
    let touches = p1.or(p42).or(p43).or(p63);
    fits.and(touches)
}

/// All destinations of shape 64: bit `d` is set exactly when the shape fits the legal fields
/// `l` at `d` and touches the placement fields `p`.
pub fn shape_64(l: Bitboard, p: Bitboard) -> (r: Bitboard)
    ensures
        forall|d: int| #[trigger] r.has(d) == shape_destination(64, |i: int| l.has(i), |i: int| p.has(i), d),
{
    let l21 = l.shr(21);
    let l42 = l.shr(42);
    let l43 = l.shr(43);
    let l64 = l.shr(64);
    let p42 = p.shr(42);
    let p43 = p.shr(43);
    let p64 = p.shr(64);
    let fits = l.and(l21).and(l42).and(l43).and(l64);
    let touches = p.or(p42).or(p43).or(p64);
    fits.and(touches)
}

/// All destinations of shape 65: bit `d` is set exactly when the shape fits the legal fields
/// `l` at `d` and touches the placement fields `p`.
pub fn shape_65(l: Bitboard, p: Bitboard) -> (r: Bitboard)
    ensures
        forall|d: int| #[trigger] r.has(d) == shape_destination(65, |i: int| l.has(i), |i: int| p.has(i), d),
{
    let l1 = l.shr(1);
    let l21 = l.shr(21);
    let l22 = l.shr(22);
    let l42 = l.shr(42);
    let l63 = l.shr(63);
    let p1 = p.shr(1);
    let p21 = p.shr(21);
    let p22 = p.shr(22);
    let p63 = p.shr(63);
    let fits = l1.and(l21).and(l22).and(l42).and(l63);
    let touches = p1.or(p21).or(p22).or(p63);
    fits.and(touches)
}

/// All destinations of shape 66: bit `d` is set exactly when the shape fits the legal fields
/// `l` at `d` and touches the placement fields `p`.
pub fn shape_66(l: Bitboard, p: Bitboard) -> (r: Bitboard)
    ensures
        forall|d: int| #[trigger] r.has(d) == shape_destination(66, |i: int| l.has(i), |i: int| p.has(i), d),
{
    let l21 = l.shr(21);
    let l22 = l.shr(22);
    let l43 = l.shr(43);
    let l64 = l.shr(64);
    let p21 = p.shr(21);
    let p22 = p.shr(22);
    let p64 = p.shr(64);
    let fits = l.and(l21).and(l22).and(l43).and(l64);
    let touches = p.or(p21).or(p22).or(p64);
    fits.and(touches)
}

/// All destinations of shape 67: bit `d` is set exactly when the shape fits the legal fields
/// `l` at `d` and touches the placement fields `p`.
pub fn shape_67(l: Bitboard, p: Bitboard) -> (r: Bitboard)
    ensures
        forall|d: int| #[trigger] r.has(d) == shape_destination(67, |i: int| l.has(i), |i: int| p.has(i), d),
{
    let l2 = l.shr(2);
    let l3 = l.shr(3);
    let l21 = l.shr(21);
    let l22 = l.shr(22);
    let l23 = l.shr(23);
    let p2 = p.shr(2);
    let p3 = p.shr(3);
    let p21 = p.shr(21);
    let p23 = p.shr(23);
    let fits = l2.and(l3).and(l21).and(l22).and(l23);
    let touches = p2.or(p3).or(p21).or(p23);
    fits.and(touches)
}

/// All destinations of shape 68: bit `d` is set exactly when the shape fits the legal fields
/// `l` at `d` and touches the placement fields `p`.
pub fn shape_68(l: Bitboard, p: Bitboard) -> (r: Bitboard)
    ensures
        forall|d: int| #[trigger] r.has(d) == shape_destination(68, |i: int| l.has(i), |i: int| p.has(i), d),
{
    let l1 = l.shr(1);
    let l2 = l.shr(2);
    let l23 = l.shr(23);
    let l24 = l.shr(24);
    let p2 = p.shr(2);
    let p23 = p.shr(23);
    let p24 = p.shr(24);
    let fits = l.and(l1).and(l2).and(l23).and(l24);
    let touches = p.or(p2).or(p23).or(p24);
    fits.and(touches)
}

/// All destinations of shape 69: bit `d` is set exactly when the shape fits the legal fields
/// `l` at `d` and touches the placement fields `p`.
pub fn shape_69(l: Bitboard, p: Bitboard) -> (r: Bitboard)
    ensures
        forall|d: int| #[trigger] r.has(d) == shape_destination(69, |i: int| l.has(i), |i: int| p.has(i), d),
{
    let l1 = l.shr(1);
    let l22 = l.shr(22);
    let l23 = l.shr(23);
    let l24 = l.shr(24);
    let p1 = p.shr(1);
    let p22 = p.shr(22);
    let p24 = p.shr(24);
    let fits = l.and(l1).and(l22).and(l23).and(l24);
    let touches = p.or(p1).or(p22).or(p24);
    fits.and(touches)
}

/// All destinations of shape 70: bit `d` is set exactly when the shape fits the legal fields
/// `l` at `d` and touches the placement fields `p`.
pub fn shape_70(l: Bitboard, p: Bitboard) -> (r: Bitboard)
    ensures
        forall|d: int| #[trigger] r.has(d) == shape_destination(70, |i: int| l.has(i), |i: int| p.has(i), d),
{
    let l1 = l.shr(1);
    let l2 = l.shr(2);
    let l3 = l.shr(3);
    let l21 = l.shr(21);
    let l22 = l.shr(22);
    let p1 = p.shr(1);
    let p3 = p.shr(3);
    let p21 = p.shr(21);
    let p22 = p.shr(22);
    let fits = l1.and(l2).and(l3).and(l21).and(l22);
    let touches = p1.or(p3).or(p21).or(p22);
    fits.and(touches)
}

/// All destinations of shape 71: bit `d` is set exactly when the shape fits the legal fields
/// `l` at `d` and touches the placement fields `p`.
pub fn shape_71(l: Bitboard, p: Bitboard) -> (r: Bitboard)
    ensures
        forall|d: int| #[trigger] r.has(d) == shape_destination(71, |i: int| l.has(i), |i: int| p.has(i), d),
{
    let l1 = l.shr(1);
    let l2 = l.shr(2);
    let l21 = l.shr(21);
    let l42 = l.shr(42);
    let p2 = p.shr(2);
    let p42 = p.shr(42);
    let fits = l.and(l1).and(l2).and(l21).and(l42);
    let touches = p.or(p2).or(p42);
    fits.and(touches)
}

/// All destinations of shape 72: bit `d` is set exactly when the shape fits the legal fields
/// `l` at `d` and touches the placement fields `p`.
pub fn shape_72(l: Bitboard, p: Bitboard) -> (r: Bitboard)
    ensures
        forall|d: int| #[trigger] r.has(d) == shape_destination(72, |i: int| l.has(i), |i: int| p.has(i), d),
{
    let l2 = l.shr(2);
    let l23 = l.shr(23);
    let l42 = l.shr(42);
    let l43 = l.shr(43);
    let l44 = l.shr(44);
    let p2 = p.shr(2);
    let p42 = p.shr(42);
    let p44 = p.shr(44);
    let fits = l2.and(l23).and(l42).and(l43).and(l44);
    let touches = p2.or(p42).or(p44);
    fits.and(touches)
}

/// All destinations of shape 73: bit `d` is set exactly when the shape fits the legal fields
/// `l` at `d` and touches the placement fields `p`.
pub fn shape_73(l: Bitboard, p: Bitboard) -> (r: Bitboard)
    ensures
        forall|d: int| #[trigger] r.has(d) == shape_destination(73, |i: int| l.has(i), |i: int| p.has(i), d),
{
    let l1 = l.shr(1);
    let l2 = l.shr(2);
    let l23 = l.shr(23);
    let l44 = l.shr(44);
    let p2 = p.shr(2);
    let p44 = p.shr(44);
    let fits = l.and(l1).and(l2).and(l23).and(l44);
    let touches = p.or(p2).or(p44);
    fits.and(touches)
}

/// All destinations of shape 74: bit `d` is set exactly when the shape fits the legal fields
/// `l` at `d` and touches the placement fields `p`.
pub fn shape_74(l: Bitboard, p: Bitboard) -> (r: Bitboard)
    ensures
        forall|d: int| #[trigger] r.has(d) == shape_destination(74, |i: int| l.has(i), |i: int| p.has(i), d),
{
    let l21 = l.shr(21);
    let l42 = l.shr(42);
    let l43 = l.shr(43);
    let l44 = l.shr(44);
    let p42 = p.shr(42);
    let p44 = p.shr(44);
    let fits = l.and(l21).and(l42).and(l43).and(l44);
    let touches = p.or(p42).or(p44);
    fits.and(touches)
}

/// All destinations of shape 75: bit `d` is set exactly when the shape fits the legal fields
/// `l` at `d` and touches the placement fields `p`.
pub fn shape_75(l: Bitboard, p: Bitboard) -> (r: Bitboard)
    ensures
        forall|d: int| #[trigger] r.has(d) == shape_destination(75, |i: int| l.has(i), |i: int| p.has(i), d),
{
    let l1 = l.shr(1);
    let l21 = l.shr(21);
    let l22 = l.shr(22);
    let l42 = l.shr(42);
    let p1 = p.shr(1);
    let p22 = p.shr(22);
    let p42 = p.shr(42);
    let fits = l.and(l1).and(l21).and(l22).and(l42);
    let touches = p.or(p1).or(p22).or(p42);
    fits.and(touches)
}

/// All destinations of shape 76: bit `d` is set exactly when the shape fits the legal fields
/// `l` at `d` and touches the placement fields `p`.
pub fn shape_76(l: Bitboard, p: Bitboard) -> (r: Bitboard)
    ensures
        forall|d: int| #[trigger] r.has(d) == shape_destination(76, |i: int| l.has(i), |i: int| p.has(i), d),
{
    let l1 = l.shr(1);
    let l21 = l.shr(21);
    let l22 = l.shr(22);
    let l43 = l.shr(43);
    let p1 = p.shr(1);
    let p21 = p.shr(21);
    let p43 = p.shr(43);
    let fits = l.and(l1).and(l21).and(l22).and(l43);
    let touches = p.or(p1).or(p21).or(p43);
    fits.and(touches)
}

/// All destinations of shape 77: bit `d` is set exactly when the shape fits the legal fields
/// `l` at `d` and touches the placement fields `p`.
pub fn shape_77(l: Bitboard, p: Bitboard) -> (r: Bitboard)
    ensures
        forall|d: int| #[trigger] r.has(d) == shape_destination(77, |i: int| l.has(i), |i: int| p.has(i), d),
{
    let l1 = l.shr(1);
    let l21 = l.shr(21);
    let l22 = l.shr(22);
    let l23 = l.shr(23);
    let p1 = p.shr(1);
    let p21 = p.shr(21);
    let p23 = p.shr(23);
    let fits = l.and(l1).and(l21).and(l22).and(l23);
    let touches = p.or(p1).or(p21).or(p23);
    fits.and(touches)
}

/// All destinations of shape 78: bit `d` is set exactly when the shape fits the legal fields
/// `l` at `d` and touches the placement fields `p`.
pub fn shape_78(l: Bitboard, p: Bitboard) -> (r: Bitboard)
    ensures
        forall|d: int| #[trigger] r.has(d) == shape_destination(78, |i: int| l.has(i), |i: int| p.has(i), d),
{
    let l1 = l.shr(1);
    let l2 = l.shr(2);
    let l21 = l.shr(21);
    let l22 = l.shr(22);
    let p2 = p.shr(2);
    let p21 = p.shr(21);
    let p22 = p.shr(22);
    let fits = l.and(l1).and(l2).and(l21).and(l22);
    let touches = p.or(p2).or(p21).or(p22);
    fits.and(touches)
}

/// All destinations of shape 79: bit `d` is set exactly when the shape fits the legal fields
/// `l` at `d` and touches the placement fields `p`.
pub fn shape_79(l: Bitboard, p: Bitboard) -> (r: Bitboard)
    ensures
        forall|d: int| #[trigger] r.has(d) == shape_destination(79, |i: int| l.has(i), |i: int| p.has(i), d),
{
    let l1 = l.shr(1);
    let l2 = l.shr(2);
    let l22 = l.shr(22);
    let l23 = l.shr(23);
    let p2 = p.shr(2);
    let p22 = p.shr(22);
    let p23 = p.shr(23);
    let fits = l.and(l1).and(l2).and(l22).and(l23);
    let touches = p.or(p2).or(p22).or(p23);
    fits.and(touches)
}

/// All destinations of shape 80: bit `d` is set exactly when the shape fits the legal fields
/// `l` at `d` and touches the placement fields `p`.
pub fn shape_80(l: Bitboard, p: Bitboard) -> (r: Bitboard)
    ensures
        forall|d: int| #[trigger] r.has(d) == shape_destination(80, |i: int| l.has(i), |i: int| p.has(i), d),
{
    let l1 = l.shr(1);
    let l2 = l.shr(2);
    let l21 = l.shr(21);
    let l22 = l.shr(22);
    let l23 = l.shr(23);
    let p1 = p.shr(1);
    let p2 = p.shr(2);
    let p21 = p.shr(21);
    let p23 = p.shr(23);
    let fits = l1.and(l2).and(l21).and(l22).and(l23);
    let touches = p1.or(p2).or(p21).or(p23);
    fits.and(touches)
}

/// All destinations of shape 81: bit `d` is set exactly when the shape fits the legal fields
/// `l` at `d` and touches the placement fields `p`.
pub fn shape_81(l: Bitboard, p: Bitboard) -> (r: Bitboard)
    ensures
        forall|d: int| #[trigger] r.has(d) == shape_destination(81, |i: int| l.has(i), |i: int| p.has(i), d),
{
    let l1 = l.shr(1);
    let l21 = l.shr(21);
    let l22 = l.shr(22);
    let l42 = l.shr(42);
    let l43 = l.shr(43);
    let p1 = p.shr(1);
    let p21 = p.shr(21);
    let p42 = p.shr(42);
    let p43 = p.shr(43);
    let fits = l1.and(l21).and(l22).and(l42).and(l43);
    let touches = p1.or(p21).or(p42).or(p43);
    fits.and(touches)
}

/// All destinations of shape 82: bit `d` is set exactly when the shape fits the legal fields
/// `l` at `d` and touches the placement fields `p`.
pub fn shape_82(l: Bitboard, p: Bitboard) -> (r: Bitboard)
    ensures
        forall|d: int| #[trigger] r.has(d) == shape_destination(82, |i: int| l.has(i), |i: int| p.has(i), d),
{
    let l21 = l.shr(21);
    let l22 = l.shr(22);
    let l42 = l.shr(42);
    let l43 = l.shr(43);
    let p22 = p.shr(22);
    let p42 = p.shr(42);
    let p43 = p.shr(43);
    let fits = l.and(l21).and(l22).and(l42).and(l43);
    let touches = p.or(p22).or(p42).or(p43);
    fits.and(touches)
}

/// All destinations of shape 83: bit `d` is set exactly when the shape fits the legal fields
/// `l` at `d` and touches the placement fields `p`.
pub fn shape_83(l: Bitboard, p: Bitboard) -> (r: Bitboard)
    ensures
        forall|d: int| #[trigger] r.has(d) == shape_destination(83, |i: int| l.has(i), |i: int| p.has(i), d),
{
    let l21 = l.shr(21);
    let l22 = l.shr(22);
    let l42 = l.shr(42);
    let l63 = l.shr(63);
    let p22 = p.shr(22);
    let p63 = p.shr(63);
    let fits = l.and(l21).and(l22).and(l42).and(l63);
    let touches = p.or(p22).or(p63);
    fits.and(touches)
}

/// All destinations of shape 84: bit `d` is set exactly when the shape fits the legal fields
/// `l` at `d` and touches the placement fields `p`.
pub fn shape_84(l: Bitboard, p: Bitboard) -> (r: Bitboard)
    ensures
        forall|d: int| #[trigger] r.has(d) == shape_destination(84, |i: int| l.has(i), |i: int| p.has(i), d),
{
    let l21 = l.shr(21);
    let l42 = l.shr(42);
    let l43 = l.shr(43);
    let l63 = l.shr(63);
    let p43 = p.shr(43);
    let p63 = p.shr(63);
    let fits = l.and(l21).and(l42).and(l43).and(l63);
    let touches = p.or(p43).or(p63);
    fits.and(touches)
}

/// All destinations of shape 85: bit `d` is set exactly when the shape fits the legal fields
/// `l` at `d` and touches the placement fields `p`.
pub fn shape_85(l: Bitboard, p: Bitboard) -> (r: Bitboard)
    ensures
        forall|d: int| #[trigger] r.has(d) == shape_destination(85, |i: int| l.has(i), |i: int| p.has(i), d),
{
    let l1 = l.shr(1);
    let l22 = l.shr(22);
    let l42 = l.shr(42);
    let l43 = l.shr(43);
    let l64 = l.shr(64);
    let p1 = p.shr(1);
    let p42 = p.shr(42);
    let p64 = p.shr(64);
    let fits = l1.and(l22).and(l42).and(l43).and(l64);
    let touches = p1.or(p42).or(p64);
    fits.and(touches)
}

/// All destinations of shape 86: bit `d` is set exactly when the shape fits the legal fields
/// `l` at `d` and touches the placement fields `p`.
pub fn shape_86(l: Bitboard, p: Bitboard) -> (r: Bitboard)
    ensures
        forall|d: int| #[trigger] r.has(d) == shape_destination(86, |i: int| l.has(i), |i: int| p.has(i), d),
{
    let l1 = l.shr(1);
    let l21 = l.shr(21);
    let l22 = l.shr(22);
    let l43 = l.shr(43);
    let l64 = l.shr(64);
    let p1 = p.shr(1);
    let p21 = p.shr(21);
    let p64 = p.shr(64);
    let fits = l1.and(l21).and(l22).and(l43).and(l64);
    let touches = p1.or(p21).or(p64);
    fits.and(touches)
}

/// All destinations of shape 87: bit `d` is set exactly when the shape fits the legal fields
/// `l` at `d` and touches the placement fields `p`.
pub fn shape_87(l: Bitboard, p: Bitboard) -> (r: Bitboard)
    ensures
        forall|d: int| #[trigger] r.has(d) == shape_destination(87, |i: int| l.has(i), |i: int| p.has(i), d),
{
    let l1 = l.shr(1);
    let l2 = l.shr(2);
    let l3 = l.shr(3);
    let l23 = l.shr(23);
    let p3 = p.shr(3);
    let p23 = p.shr(23);
    let fits = l.and(l1).and(l2).and(l3).and(l23);
    let touches = p.or(p3).or(p23);
    fits.and(touches)
}

/// All destinations of shape 88: bit `d` is set exactly when the shape fits the legal fields
/// `l` at `d` and touches the placement fields `p`.
pub fn shape_88(l: Bitboard, p: Bitboard) -> (r: Bitboard)
    ensures
        forall|d: int| #[trigger] r.has(d) == shape_destination(88, |i: int| l.has(i), |i: int| p.has(i), d),
{
    let l1 = l.shr(1);
    let l2 = l.shr(2);
    let l3 = l.shr(3);
    let l22 = l.shr(22);
    let p3 = p.shr(3);
    let p22 = p.shr(22);
    let fits = l.and(l1).and(l2).and(l3).and(l22);
    let touches = p.or(p3).or(p22);
    fits.and(touches)
}

/// All destinations of shape 89: bit `d` is set exactly when the shape fits the legal fields
/// `l` at `d` and touches the placement fields `p`.
pub fn shape_89(l: Bitboard, p: Bitboard) -> (r: Bitboard)
    ensures
        forall|d: int| #[trigger] r.has(d) == shape_destination(89, |i: int| l.has(i), |i: int| p.has(i), d),
{
    let l2 = l.shr(2);
    let l21 = l.shr(21);
    let l22 = l.shr(22);
    let l23 = l.shr(23);
    let l24 = l.shr(24);
    let p2 = p.shr(2);
    let p21 = p.shr(21);
    let p24 = p.shr(24);
    let fits = l2.and(l21).and(l22).and(l23).and(l24);
    let touches = p2.or(p21).or(p24);
    fits.and(touches)
}

/// All destinations of shape 90: bit `d` is set exactly when the shape fits the legal fields
/// `l` at `d` and touches the placement fields `p`.
pub fn shape_90(l: Bitboard, p: Bitboard) -> (r: Bitboard)
    ensures
        forall|d: int| #[trigger] r.has(d) == shape_destination(90, |i: int| l.has(i), |i: int| p.has(i), d),
{
    let l1 = l.shr(1);
    let l21 = l.shr(21);
    let l22 = l.shr(22);
    let l23 = l.shr(23);
    let l24 = l.shr(24);
    let p1 = p.shr(1);
    let p21 = p.shr(21);
    let p24 = p.shr(24);
    let fits = l1.and(l21).and(l22).and(l23).and(l24);
    let touches = p1.or(p21).or(p24);
    fits.and(touches)
}

/// All destinations of shape `shape` (`shape < 91`) given the legal fields `l` and the
/// placement fields `p`.
pub fn shape_destinations(shape: usize, l: Bitboard, p: Bitboard) -> (r: Bitboard)
    requires
        shape < 91,
    ensures
        forall|d: int| #[trigger] r.has(d) == shape_destination(shape, |i: int| l.has(i), |i: int| p.has(i), d),
{
    match shape {
        0 => shape_0(l, p),
        1 => shape_1(l, p),
        2 => shape_2(l, p),
        3 => shape_3(l, p),
        4 => shape_4(l, p),
        5 => shape_5(l, p),
        6 => shape_6(l, p),
        7 => shape_7(l, p),
        8 => shape_8(l, p),
        9 => shape_9(l, p),
        10 => shape_10(l, p),
        11 => shape_11(l, p),
        12 => shape_12(l, p),
        13 => shape_13(l, p),
        14 => shape_14(l, p),
        15 => shape_15(l, p),
        16 => shape_16(l, p),
        17 => shape_17(l, p),
        18 => shape_18(l, p),
        19 => shape_19(l, p),
        20 => shape_20(l, p),
        21 => shape_21(l, p),
        22 => shape_22(l, p),
        23 => shape_23(l, p),
        24 => shape_24(l, p),
        25 => shape_25(l, p),
        26 => shape_26(l, p),
        27 => shape_27(l, p),
        28 => shape_28(l, p),
        29 => shape_29(l, p),
        30 => shape_30(l, p),
        31 => shape_31(l, p),
        32 => shape_32(l, p),
        33 => shape_33(l, p),
        34 => shape_34(l, p),
        35 => shape_35(l, p),
        36 => shape_36(l, p),
        37 => shape_37(l, p),
        38 => shape_38(l, p),
        39 => shape_39(l, p),
        40 => shape_40(l, p),
        41 => shape_41(l, p),
        42 => shape_42(l, p),
        43 => shape_43(l, p),
        44 => shape_44(l, p),
        45 => shape_45(l, p),
        46 => shape_46(l, p),
        47 => shape_47(l, p),
        48 => shape_48(l, p),
        49 => shape_49(l, p),
        50 => shape_50(l, p),
        51 => shape_51(l, p),
        52 => shape_52(l, p),
        53 => shape_53(l, p),
        54 => shape_54(l, p),
        55 => shape_55(l, p),
        56 => shape_56(l, p),
        57 => shape_57(l, p),
        58 => shape_58(l, p),
        59 => shape_59(l, p),
        60 => shape_60(l, p),
        61 => shape_61(l, p),
        62 => shape_62(l, p),
        63 => shape_63(l, p),
        64 => shape_64(l, p),
        65 => shape_65(l, p),
        66 => shape_66(l, p),
        67 => shape_67(l, p),
        68 => shape_68(l, p),
        69 => shape_69(l, p),
        70 => shape_70(l, p),
        71 => shape_71(l, p),
        72 => shape_72(l, p),
        73 => shape_73(l, p),
        74 => shape_74(l, p),
        75 => shape_75(l, p),
        76 => shape_76(l, p),
        77 => shape_77(l, p),
        78 => shape_78(l, p),
        79 => shape_79(l, p),
        80 => shape_80(l, p),
        81 => shape_81(l, p),
        82 => shape_82(l, p),
        83 => shape_83(l, p),
        84 => shape_84(l, p),
        85 => shape_85(l, p),
        86 => shape_86(l, p),
        87 => shape_87(l, p),
        88 => shape_88(l, p),
        89 => shape_89(l, p),
        90 => shape_90(l, p),
        _ => shape_90(l, p),
    }
}

} // verus!

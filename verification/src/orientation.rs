use vstd::prelude::*;

verus! {

/// The rotation (0 none, 1 right, 2 mirror, 3 left) under which the game server knows shape
/// `shape`.
pub open spec fn rotation_spec(shape: usize) -> u8 {
    match shape {
        2 => 1,
        3 => 1,
        5 => 1,
        7 => 1,
        12 => 1,
        13 => 2,
        14 => 3,
        15 => 2,
        16 => 2,
        19 => 3,
        20 => 1,
        21 => 1,
        22 => 3,
        23 => 1,
        24 => 1,
        25 => 3,
        26 => 3,
        27 => 2,
        29 => 2,
        32 => 2,
        33 => 3,
        34 => 1,
        36 => 2,
        37 => 3,
        38 => 1,
        41 => 3,
        42 => 1,
        43 => 3,
        44 => 3,
        47 => 2,
        49 => 1,
        50 => 3,
        51 => 1,
        52 => 1,
        53 => 3,
        54 => 3,
        57 => 2,
        58 => 2,
        60 => 3,
        61 => 2,
        62 => 1,
        63 => 3,
        64 => 3,
        65 => 1,
        66 => 1,
        67 => 2,
        69 => 2,
        71 => 1,
        72 => 3,
        73 => 2,
        77 => 3,
        78 => 1,
        79 => 1,
        80 => 3,
        81 => 2,
        82 => 2,
        84 => 2,
        85 => 2,
        87 => 3,
        88 => 3,
        89 => 1,
        90 => 1,
        _ => 0,
    }
}

/// Whether the game server knows shape `shape` as flipped.
pub open spec fn flipped_spec(shape: usize) -> bool {
    match shape {
        15 => true,
        17 => true,
        19 => true,
        21 => true,
        23 => true,
        25 => true,
        27 => true,
        30 => true,
        39 => true,
        42 => true,
        43 => true,
        45 => true,
        51 => true,
        53 => true,
        56 => true,
        57 => true,
        63 => true,
        65 => true,
        68 => true,
        69 => true,
        76 => true,
        78 => true,
        80 => true,
        82 => true,
        83 => true,
        85 => true,
        87 => true,
        90 => true,
        _ => false,
    }
}

/// The rotation and the flip under which the game server knows shape `shape`.
pub fn orientation(shape: usize) -> (r: (u8, bool))
    requires
        shape < 91,
    ensures
        r.0 == rotation_spec(shape),
        r.1 == flipped_spec(shape),
{
    match shape {
        0 => (0, false),
        1 => (0, false),
        2 => (1, false),
        3 => (1, false),
        4 => (0, false),
        5 => (1, false),
        6 => (0, false),
        7 => (1, false),
        8 => (0, false),
        9 => (0, false),
        10 => (0, false),
        11 => (0, false),
        12 => (1, false),
        13 => (2, false),
        14 => (3, false),
        15 => (2, true),
        16 => (2, false),
        17 => (0, true),
        18 => (0, false),
        19 => (3, true),
        20 => (1, false),
        21 => (1, true),
        22 => (3, false),
        23 => (1, true),
        24 => (1, false),
        25 => (3, true),
        26 => (3, false),
        27 => (2, true),
        28 => (0, false),
        29 => (2, false),
        30 => (0, true),
        31 => (0, false),
        32 => (2, false),
        33 => (3, false),
        34 => (1, false),
        35 => (0, false),
        36 => (2, false),
        37 => (3, false),
        38 => (1, false),
        39 => (0, true),
        40 => (0, false),
        41 => (3, false),
        42 => (1, true),
        43 => (3, true),
        44 => (3, false),
        45 => (0, true),
        46 => (0, false),
        47 => (2, false),
        48 => (0, false),
        49 => (1, false),
        50 => (3, false),
        51 => (1, true),
        52 => (1, false),
        53 => (3, true),
        54 => (3, false),
        55 => (0, false),
        56 => (0, true),
        57 => (2, true),
        58 => (2, false),
        59 => (0, false),
        60 => (3, false),
        61 => (2, false),
        62 => (1, false),
        63 => (3, true),
        64 => (3, false),
        65 => (1, true),
        66 => (1, false),
        67 => (2, false),
        68 => (0, true),
        69 => (2, true),
        70 => (0, false),
        71 => (1, false),
        72 => (3, false),
        73 => (2, false),
        74 => (0, false),
        75 => (0, false),
        76 => (0, true),
        77 => (3, false),
        78 => (1, true),
        79 => (1, false),
        80 => (3, true),
        81 => (2, false),
        82 => (2, true),
        83 => (0, true),
        84 => (2, false),
        85 => (2, true),
        86 => (0, false),
        87 => (3, true),
        88 => (3, false),
        89 => (1, false),
        90 => (1, true),
        _ => (3, true),
    }
}

} // verus!

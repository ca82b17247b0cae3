use vstd::prelude::*;
use vstd::string::*;
use crate::rng::{entropy_rng, next_u64};

verus! {

/// The 21 piece types of Blokus, numbered from the monomino to the Z-pentomino.
#[derive(Copy, Clone, Debug, PartialEq, Eq, Structural)]
pub enum PieceType {
    Monomino,
    Domino,
    ITromino,
    LTromino,
    ITetromino,
    LTetromino,
    TTetromino,
    OTetromino,
    ZTetromino,
    FPentomino,
    IPentomino,
    LPentomino,
    NPentomino,
    PPentomino,
    TPentomino,
    UPentomino,
    VPentomino,
    WPentomino,
    XPentomino,
    YPentomino,
    ZPentomino,
}

/// The piece type with number `i` (`i < 21`).
pub open spec fn piece_type_spec(i: int) -> PieceType {
    if i == 0 {
        PieceType::Monomino
    }     else if i == 1 {
        PieceType::Domino
    }     else if i == 2 {
        PieceType::ITromino
    }     else if i == 3 {
        PieceType::LTromino
    }     else if i == 4 {
        PieceType::ITetromino
    }     else if i == 5 {
        PieceType::LTetromino
    }     else if i == 6 {
        PieceType::TTetromino
    }     else if i == 7 {
        PieceType::OTetromino
    }     else if i == 8 {
        PieceType::ZTetromino
    }     else if i == 9 {
        PieceType::FPentomino
    }     else if i == 10 {
        PieceType::IPentomino
    }     else if i == 11 {
        PieceType::LPentomino
    }     else if i == 12 {
        PieceType::NPentomino
    }     else if i == 13 {
        PieceType::PPentomino
    }     else if i == 14 {
        PieceType::TPentomino
    }     else if i == 15 {
        PieceType::UPentomino
    }     else if i == 16 {
        PieceType::VPentomino
    }     else if i == 17 {
        PieceType::WPentomino
    }     else if i == 18 {
        PieceType::XPentomino
    }     else if i == 19 {
        PieceType::YPentomino
    }     else {
        PieceType::ZPentomino
    }
}

/// The piece type of shape `shape` (`shape < 91`).
pub open spec fn shape_type_spec(shape: usize) -> PieceType {
    match shape {
        0 => PieceType::Monomino,
        1 => PieceType::Domino,
        2 => PieceType::Domino,
        3 => PieceType::ITromino,
        4 => PieceType::ITromino,
        5 => PieceType::ITetromino,
        6 => PieceType::ITetromino,
        7 => PieceType::IPentomino,
        8 => PieceType::IPentomino,
        9 => PieceType::OTetromino,
        10 => PieceType::XPentomino,
        11 => PieceType::LTromino,
        12 => PieceType::LTromino,
        13 => PieceType::LTromino,
        14 => PieceType::LTromino,
        15 => PieceType::LTetromino,
        16 => PieceType::LTetromino,
        17 => PieceType::LTetromino,
        18 => PieceType::LTetromino,
        19 => PieceType::LTetromino,
        20 => PieceType::LTetromino,
        21 => PieceType::LTetromino,
        22 => PieceType::LTetromino,
        23 => PieceType::LPentomino,
        24 => PieceType::LPentomino,
        25 => PieceType::LPentomino,
        26 => PieceType::LPentomino,
        27 => PieceType::LPentomino,
        28 => PieceType::LPentomino,
        29 => PieceType::LPentomino,
        30 => PieceType::LPentomino,
        31 => PieceType::TPentomino,
        32 => PieceType::TPentomino,
        33 => PieceType::TPentomino,
        34 => PieceType::TPentomino,
        35 => PieceType::TTetromino,
        36 => PieceType::TTetromino,
        37 => PieceType::TTetromino,
        38 => PieceType::TTetromino,
        39 => PieceType::ZTetromino,
        40 => PieceType::ZTetromino,
        41 => PieceType::ZTetromino,
        42 => PieceType::ZTetromino,
        43 => PieceType::ZPentomino,
        44 => PieceType::ZPentomino,
        45 => PieceType::ZPentomino,
        46 => PieceType::ZPentomino,
        47 => PieceType::UPentomino,
        48 => PieceType::UPentomino,
        49 => PieceType::UPentomino,
        50 => PieceType::UPentomino,
        51 => PieceType::FPentomino,
        52 => PieceType::FPentomino,
        53 => PieceType::FPentomino,
        54 => PieceType::FPentomino,
        55 => PieceType::FPentomino,
        56 => PieceType::FPentomino,
        57 => PieceType::FPentomino,
        58 => PieceType::FPentomino,
        59 => PieceType::WPentomino,
        60 => PieceType::WPentomino,
        61 => PieceType::WPentomino,
        62 => PieceType::WPentomino,
        63 => PieceType::NPentomino,
        64 => PieceType::NPentomino,
        65 => PieceType::NPentomino,
        66 => PieceType::NPentomino,
        67 => PieceType::NPentomino,
        68 => PieceType::NPentomino,
        69 => PieceType::NPentomino,
        70 => PieceType::NPentomino,
        71 => PieceType::VPentomino,
        72 => PieceType::VPentomino,
        73 => PieceType::VPentomino,
        74 => PieceType::VPentomino,
        75 => PieceType::PPentomino,
        76 => PieceType::PPentomino,
        77 => PieceType::PPentomino,
        78 => PieceType::PPentomino,
        79 => PieceType::PPentomino,
        80 => PieceType::PPentomino,
        81 => PieceType::PPentomino,
        82 => PieceType::PPentomino,
        83 => PieceType::YPentomino,
        84 => PieceType::YPentomino,
        85 => PieceType::YPentomino,
        86 => PieceType::YPentomino,
        87 => PieceType::YPentomino,
        88 => PieceType::YPentomino,
        89 => PieceType::YPentomino,
        90 => PieceType::YPentomino,
        _ => PieceType::Monomino,
    }
}

/// The number of the piece type in `0..11` of the pentominoes that may start a game.
pub open spec fn start_piece_type_spec(i: int) -> PieceType {
    if i == 0 {
        PieceType::FPentomino
    }     else if i == 1 {
        PieceType::IPentomino
    }     else if i == 2 {
        PieceType::LPentomino
    }     else if i == 3 {
        PieceType::NPentomino
    }     else if i == 4 {
        PieceType::PPentomino
    }     else if i == 5 {
        PieceType::TPentomino
    }     else if i == 6 {
        PieceType::UPentomino
    }     else if i == 7 {
        PieceType::VPentomino
    }     else if i == 8 {
        PieceType::WPentomino
    }     else if i == 9 {
        PieceType::YPentomino
    }     else {
        PieceType::ZPentomino
    }
}

impl PieceType {
    /// The number of the piece type.
    pub open spec fn index_spec(self) -> int {
        match self {
            PieceType::Monomino => 0,
            PieceType::Domino => 1,
            PieceType::ITromino => 2,
            PieceType::LTromino => 3,
            PieceType::ITetromino => 4,
            PieceType::LTetromino => 5,
            PieceType::TTetromino => 6,
            PieceType::OTetromino => 7,
            PieceType::ZTetromino => 8,
            PieceType::FPentomino => 9,
            PieceType::IPentomino => 10,
            PieceType::LPentomino => 11,
            PieceType::NPentomino => 12,
            PieceType::PPentomino => 13,
            PieceType::TPentomino => 14,
            PieceType::UPentomino => 15,
            PieceType::VPentomino => 16,
            PieceType::WPentomino => 17,
            PieceType::XPentomino => 18,
            PieceType::YPentomino => 19,
            PieceType::ZPentomino => 20,
        }
    }

    /// The number of fields that the piece covers.
    pub open spec fn size_spec(self) -> int {
        match self {
            PieceType::Monomino => 1,
            PieceType::Domino => 2,
            PieceType::ITromino => 3,
            PieceType::LTromino => 3,
            PieceType::ITetromino => 4,
            PieceType::LTetromino => 4,
            PieceType::TTetromino => 4,
            PieceType::OTetromino => 4,
            PieceType::ZTetromino => 4,
            _ => 5,
        }
    }

    /// The full name of the piece type.
    pub open spec fn full_name_spec(self) -> Seq<char> {
        match self {
            PieceType::Monomino => "Monomino"@,
            PieceType::Domino => "Domino"@,
            PieceType::ITromino => "I-Tromino"@,
            PieceType::LTromino => "L-Tromino"@,
            PieceType::ITetromino => "I-Tetromino"@,
            PieceType::LTetromino => "L-Tetromino"@,
            PieceType::TTetromino => "T-Tetromino"@,
            PieceType::OTetromino => "O-Tetromino"@,
            PieceType::ZTetromino => "Z-Tetromino"@,
            PieceType::FPentomino => "F-Pentomino"@,
            PieceType::IPentomino => "I-Pentomino"@,
            PieceType::LPentomino => "L-Pentomino"@,
            PieceType::NPentomino => "N-Pentomino"@,
            PieceType::PPentomino => "P-Pentomino"@,
            PieceType::TPentomino => "T-Pentomino"@,
            PieceType::UPentomino => "U-Pentomino"@,
            PieceType::VPentomino => "V-Pentomino"@,
            PieceType::WPentomino => "W-Pentomino"@,
            PieceType::XPentomino => "X-Pentomino"@,
            PieceType::YPentomino => "Y-Pentomino"@,
            PieceType::ZPentomino => "Z-Pentomino"@,
        }
    }

    /// The name that the game server uses for the piece type.
    pub open spec fn xml_name_spec(self) -> Seq<char> {
        match self {
            PieceType::Monomino => "MONO"@,
            PieceType::Domino => "DOMINO"@,
            PieceType::ITromino => "TRIO_I"@,
            PieceType::LTromino => "TRIO_L"@,
            PieceType::ITetromino => "TETRO_I"@,
            PieceType::LTetromino => "TETRO_L"@,
            PieceType::TTetromino => "TETRO_T"@,
            PieceType::OTetromino => "TETRO_O"@,
            PieceType::ZTetromino => "TETRO_Z"@,
            PieceType::FPentomino => "PENTO_R"@,
            PieceType::IPentomino => "PENTO_I"@,
            PieceType::LPentomino => "PENTO_L"@,
            PieceType::NPentomino => "PENTO_S"@,
            PieceType::PPentomino => "PENTO_P"@,
            PieceType::TPentomino => "PENTO_T"@,
            PieceType::UPentomino => "PENTO_U"@,
            PieceType::VPentomino => "PENTO_V"@,
            PieceType::WPentomino => "PENTO_W"@,
            PieceType::XPentomino => "PENTO_X"@,
            PieceType::YPentomino => "PENTO_Y"@,
            PieceType::ZPentomino => "PENTO_Z"@,
        }
    }

    /// The short name of the piece type.
    pub open spec fn short_name_spec(self) -> Seq<char> {
        match self {
            PieceType::Monomino => "M"@,
            PieceType::Domino => "D"@,
            PieceType::ITromino => "I3"@,
            PieceType::LTromino => "L3"@,
            PieceType::ITetromino => "I4"@,
            PieceType::LTetromino => "L4"@,
            PieceType::TTetromino => "T4"@,
            PieceType::OTetromino => "O"@,
            PieceType::ZTetromino => "Z4"@,
            PieceType::FPentomino => "F"@,
            PieceType::IPentomino => "I5"@,
            PieceType::LPentomino => "L5"@,
            PieceType::NPentomino => "N"@,
            PieceType::PPentomino => "P"@,
            PieceType::TPentomino => "T5"@,
            PieceType::UPentomino => "U"@,
            PieceType::VPentomino => "V"@,
            PieceType::WPentomino => "W"@,
            PieceType::XPentomino => "X"@,
            PieceType::YPentomino => "Y"@,
            PieceType::ZPentomino => "Z5"@,
        }
    }

    /// The number of the piece type.
    pub fn index(&self) -> (r: usize)
        ensures
            r == self.index_spec(),
            r < 21,
    {
        match self {
            PieceType::Monomino => 0,
            PieceType::Domino => 1,
            PieceType::ITromino => 2,
            PieceType::LTromino => 3,
            PieceType::ITetromino => 4,
            PieceType::LTetromino => 5,
            PieceType::TTetromino => 6,
            PieceType::OTetromino => 7,
            PieceType::ZTetromino => 8,
            PieceType::FPentomino => 9,
            PieceType::IPentomino => 10,
            PieceType::LPentomino => 11,
            PieceType::NPentomino => 12,
            PieceType::PPentomino => 13,
            PieceType::TPentomino => 14,
            PieceType::UPentomino => 15,
            PieceType::VPentomino => 16,
            PieceType::WPentomino => 17,
            PieceType::XPentomino => 18,
            PieceType::YPentomino => 19,
            PieceType::ZPentomino => 20,
        }
    }

    /// The piece type with number `i`.
    pub fn from_index(i: usize) -> (r: PieceType)
        requires
            i < 21,
        ensures
            r == piece_type_spec(i as int),
            r.index_spec() == i,
    {
        if i == 0 {
            PieceType::Monomino
        }         else if i == 1 {
            PieceType::Domino
        }         else if i == 2 {
            PieceType::ITromino
        }         else if i == 3 {
            PieceType::LTromino
        }         else if i == 4 {
            PieceType::ITetromino
        }         else if i == 5 {
            PieceType::LTetromino
        }         else if i == 6 {
            PieceType::TTetromino
        }         else if i == 7 {
            PieceType::OTetromino
        }         else if i == 8 {
            PieceType::ZTetromino
        }         else if i == 9 {
            PieceType::FPentomino
        }         else if i == 10 {
            PieceType::IPentomino
        }         else if i == 11 {
            PieceType::LPentomino
        }         else if i == 12 {
            PieceType::NPentomino
        }         else if i == 13 {
            PieceType::PPentomino
        }         else if i == 14 {
            PieceType::TPentomino
        }         else if i == 15 {
            PieceType::UPentomino
        }         else if i == 16 {
            PieceType::VPentomino
        }         else if i == 17 {
            PieceType::WPentomino
        }         else if i == 18 {
            PieceType::XPentomino
        }         else if i == 19 {
            PieceType::YPentomino
        } else {
            PieceType::ZPentomino
        }
    }

    /// A pentomino drawn at random from the eleven that may start a game.
    pub fn random_pentomino() -> (r: PieceType)
        ensures
            exists|i: int| 0 <= i < 11 && r == start_piece_type_spec(i),
    {
        let mut rng = entropy_rng();
        let k = (next_u64(&mut rng) % 11) as usize;
        let r = start_piece_type(k);
        assert(r == start_piece_type_spec(k as int));
        r
    }

    /// The shapes of the piece type: `count` consecutive shapes from `first` on.
    /// The first shape of the piece type and the number of its shapes.
    pub open spec fn shapes_spec(self) -> (usize, usize) {
        match self {
            PieceType::Monomino => (0, 1),
            PieceType::Domino => (1, 2),
            PieceType::ITromino => (3, 2),
            PieceType::ITetromino => (5, 2),
            PieceType::IPentomino => (7, 2),
            PieceType::OTetromino => (9, 1),
            PieceType::XPentomino => (10, 1),
            PieceType::LTromino => (11, 4),
            PieceType::LTetromino => (15, 8),
            PieceType::LPentomino => (23, 8),
            PieceType::TPentomino => (31, 4),
            PieceType::TTetromino => (35, 4),
            PieceType::ZTetromino => (39, 4),
            PieceType::ZPentomino => (43, 4),
            PieceType::UPentomino => (47, 4),
            PieceType::FPentomino => (51, 8),
            PieceType::WPentomino => (59, 4),
            PieceType::NPentomino => (63, 8),
            PieceType::VPentomino => (71, 4),
            PieceType::PPentomino => (75, 8),
            PieceType::YPentomino => (83, 8),
        }
    }

    pub fn shapes(&self) -> (r: (usize, usize))
        ensures
            r == self.shapes_spec(),
            r.1 >= 1,
            r.0 + r.1 <= 91,
            forall|s: int| r.0 <= s < r.0 + r.1 ==> #[trigger] shape_type_spec(s as usize) == *self,
    {
        match self {
            PieceType::Monomino => (0, 1),
            PieceType::Domino => (1, 2),
            PieceType::ITromino => (3, 2),
            PieceType::ITetromino => (5, 2),
            PieceType::IPentomino => (7, 2),
            PieceType::OTetromino => (9, 1),
            PieceType::XPentomino => (10, 1),
            PieceType::LTromino => (11, 4),
            PieceType::LTetromino => (15, 8),
            PieceType::LPentomino => (23, 8),
            PieceType::TPentomino => (31, 4),
            PieceType::TTetromino => (35, 4),
            PieceType::ZTetromino => (39, 4),
            PieceType::ZPentomino => (43, 4),
            PieceType::UPentomino => (47, 4),
            PieceType::FPentomino => (51, 8),
            PieceType::WPentomino => (59, 4),
            PieceType::NPentomino => (63, 8),
            PieceType::VPentomino => (71, 4),
            PieceType::PPentomino => (75, 8),
            PieceType::YPentomino => (83, 8),
        }
    }

    /// The piece type of shape `shape`.
    pub fn from_shape(shape: usize) -> (r: PieceType)
        requires
            shape < 91,
        ensures
            r == shape_type_spec(shape),
    {
        match shape {
            0 => PieceType::Monomino,
            1 => PieceType::Domino,
            2 => PieceType::Domino,
            3 => PieceType::ITromino,
            4 => PieceType::ITromino,
            5 => PieceType::ITetromino,
            6 => PieceType::ITetromino,
            7 => PieceType::IPentomino,
            8 => PieceType::IPentomino,
            9 => PieceType::OTetromino,
            10 => PieceType::XPentomino,
            11 => PieceType::LTromino,
            12 => PieceType::LTromino,
            13 => PieceType::LTromino,
            14 => PieceType::LTromino,
            15 => PieceType::LTetromino,
            16 => PieceType::LTetromino,
            17 => PieceType::LTetromino,
            18 => PieceType::LTetromino,
            19 => PieceType::LTetromino,
            20 => PieceType::LTetromino,
            21 => PieceType::LTetromino,
            22 => PieceType::LTetromino,
            23 => PieceType::LPentomino,
            24 => PieceType::LPentomino,
            25 => PieceType::LPentomino,
            26 => PieceType::LPentomino,
            27 => PieceType::LPentomino,
            28 => PieceType::LPentomino,
            29 => PieceType::LPentomino,
            30 => PieceType::LPentomino,
            31 => PieceType::TPentomino,
            32 => PieceType::TPentomino,
            33 => PieceType::TPentomino,
            34 => PieceType::TPentomino,
            35 => PieceType::TTetromino,
            36 => PieceType::TTetromino,
            37 => PieceType::TTetromino,
            38 => PieceType::TTetromino,
            39 => PieceType::ZTetromino,
            40 => PieceType::ZTetromino,
            41 => PieceType::ZTetromino,
            42 => PieceType::ZTetromino,
            43 => PieceType::ZPentomino,
            44 => PieceType::ZPentomino,
            45 => PieceType::ZPentomino,
            46 => PieceType::ZPentomino,
            47 => PieceType::UPentomino,
            48 => PieceType::UPentomino,
            49 => PieceType::UPentomino,
            50 => PieceType::UPentomino,
            51 => PieceType::FPentomino,
            52 => PieceType::FPentomino,
            53 => PieceType::FPentomino,
            54 => PieceType::FPentomino,
            55 => PieceType::FPentomino,
            56 => PieceType::FPentomino,
            57 => PieceType::FPentomino,
            58 => PieceType::FPentomino,
            59 => PieceType::WPentomino,
            60 => PieceType::WPentomino,
            61 => PieceType::WPentomino,
            62 => PieceType::WPentomino,
            63 => PieceType::NPentomino,
            64 => PieceType::NPentomino,
            65 => PieceType::NPentomino,
            66 => PieceType::NPentomino,
            67 => PieceType::NPentomino,
            68 => PieceType::NPentomino,
            69 => PieceType::NPentomino,
            70 => PieceType::NPentomino,
            71 => PieceType::VPentomino,
            72 => PieceType::VPentomino,
            73 => PieceType::VPentomino,
            74 => PieceType::VPentomino,
            75 => PieceType::PPentomino,
            76 => PieceType::PPentomino,
            77 => PieceType::PPentomino,
            78 => PieceType::PPentomino,
            79 => PieceType::PPentomino,
            80 => PieceType::PPentomino,
            81 => PieceType::PPentomino,
            82 => PieceType::PPentomino,
            83 => PieceType::YPentomino,
            84 => PieceType::YPentomino,
            85 => PieceType::YPentomino,
            86 => PieceType::YPentomino,
            87 => PieceType::YPentomino,
            88 => PieceType::YPentomino,
            89 => PieceType::YPentomino,
            90 => PieceType::YPentomino,
            _ => PieceType::Monomino,
        }
    }

    /// The name that the game server uses for the piece type.
    pub fn to_xml_name(&self) -> (r: String)
        ensures
            r@ == self.xml_name_spec(),
    {
        match self {
            PieceType::Monomino => String::from_str("MONO"),
            PieceType::Domino => String::from_str("DOMINO"),
            PieceType::ITromino => String::from_str("TRIO_I"),
            PieceType::LTromino => String::from_str("TRIO_L"),
            PieceType::ITetromino => String::from_str("TETRO_I"),
            PieceType::LTetromino => String::from_str("TETRO_L"),
            PieceType::TTetromino => String::from_str("TETRO_T"),
            PieceType::OTetromino => String::from_str("TETRO_O"),
            PieceType::ZTetromino => String::from_str("TETRO_Z"),
            PieceType::FPentomino => String::from_str("PENTO_R"),
            PieceType::IPentomino => String::from_str("PENTO_I"),
            PieceType::LPentomino => String::from_str("PENTO_L"),
            PieceType::NPentomino => String::from_str("PENTO_S"),
            PieceType::PPentomino => String::from_str("PENTO_P"),
            PieceType::TPentomino => String::from_str("PENTO_T"),
            PieceType::UPentomino => String::from_str("PENTO_U"),
            PieceType::VPentomino => String::from_str("PENTO_V"),
            PieceType::WPentomino => String::from_str("PENTO_W"),
            PieceType::XPentomino => String::from_str("PENTO_X"),
            PieceType::YPentomino => String::from_str("PENTO_Y"),
            PieceType::ZPentomino => String::from_str("PENTO_Z"),
        }
    }

    /// The short name of the piece type.
    pub fn to_short_name(&self) -> (r: String)
        ensures
            r@ == self.short_name_spec(),
    {
        match self {
            PieceType::Monomino => String::from_str("M"),
            PieceType::Domino => String::from_str("D"),
            PieceType::ITromino => String::from_str("I3"),
            PieceType::LTromino => String::from_str("L3"),
            PieceType::ITetromino => String::from_str("I4"),
            PieceType::LTetromino => String::from_str("L4"),
            PieceType::TTetromino => String::from_str("T4"),
            PieceType::OTetromino => String::from_str("O"),
            PieceType::ZTetromino => String::from_str("Z4"),
            PieceType::FPentomino => String::from_str("F"),
            PieceType::IPentomino => String::from_str("I5"),
            PieceType::LPentomino => String::from_str("L5"),
            PieceType::NPentomino => String::from_str("N"),
            PieceType::PPentomino => String::from_str("P"),
            PieceType::TPentomino => String::from_str("T5"),
            PieceType::UPentomino => String::from_str("U"),
            PieceType::VPentomino => String::from_str("V"),
            PieceType::WPentomino => String::from_str("W"),
            PieceType::XPentomino => String::from_str("X"),
            PieceType::YPentomino => String::from_str("Y"),
            PieceType::ZPentomino => String::from_str("Z5"),
        }
    }

    /// The full name of the piece type.
    pub fn to_full_name(&self) -> (r: String)
        ensures
            r@ == self.full_name_spec(),
    {
        match self {
            PieceType::Monomino => String::from_str("Monomino"),
            PieceType::Domino => String::from_str("Domino"),
            PieceType::ITromino => String::from_str("I-Tromino"),
            PieceType::LTromino => String::from_str("L-Tromino"),
            PieceType::ITetromino => String::from_str("I-Tetromino"),
            PieceType::LTetromino => String::from_str("L-Tetromino"),
            PieceType::TTetromino => String::from_str("T-Tetromino"),
            PieceType::OTetromino => String::from_str("O-Tetromino"),
            PieceType::ZTetromino => String::from_str("Z-Tetromino"),
            PieceType::FPentomino => String::from_str("F-Pentomino"),
            PieceType::IPentomino => String::from_str("I-Pentomino"),
            PieceType::LPentomino => String::from_str("L-Pentomino"),
            PieceType::NPentomino => String::from_str("N-Pentomino"),
            PieceType::PPentomino => String::from_str("P-Pentomino"),
            PieceType::TPentomino => String::from_str("T-Pentomino"),
            PieceType::UPentomino => String::from_str("U-Pentomino"),
            PieceType::VPentomino => String::from_str("V-Pentomino"),
            PieceType::WPentomino => String::from_str("W-Pentomino"),
            PieceType::XPentomino => String::from_str("X-Pentomino"),
            PieceType::YPentomino => String::from_str("Y-Pentomino"),
            PieceType::ZPentomino => String::from_str("Z-Pentomino"),
        }
    }

    /// The number of fields that the piece covers.
    pub fn piece_size(&self) -> (r: u8)
        ensures
            r == self.size_spec(),
    {
        match self {
            PieceType::Monomino => 1,
            PieceType::Domino => 2,
            PieceType::ITromino => 3,
            PieceType::LTromino => 3,
            PieceType::ITetromino => 4,
            PieceType::LTetromino => 4,
            PieceType::TTetromino => 4,
            PieceType::OTetromino => 4,
            PieceType::ZTetromino => 4,
            _ => 5,
        }
    }
}

/// The pentomino with number `i` among the eleven that may start a game.
pub fn start_piece_type(i: usize) -> (r: PieceType)
    requires
        i < 11,
    ensures
        r == start_piece_type_spec(i as int),
{
    if i == 0 {
        PieceType::FPentomino
    }     else if i == 1 {
        PieceType::IPentomino
    }     else if i == 2 {
        PieceType::LPentomino
    }     else if i == 3 {
        PieceType::NPentomino
    }     else if i == 4 {
        PieceType::PPentomino
    }     else if i == 5 {
        PieceType::TPentomino
    }     else if i == 6 {
        PieceType::UPentomino
    }     else if i == 7 {
        PieceType::VPentomino
    }     else if i == 8 {
        PieceType::WPentomino
    }     else if i == 9 {
        PieceType::YPentomino
    } else {
        PieceType::ZPentomino
    }
}

} // verus!

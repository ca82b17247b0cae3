use vstd::prelude::*;
use crate::bits::{
    u128_bit, u128_ones, lemma_u128_bitwise, lemma_u128_shift, lemma_u128_single, u128_trailing_zeros,
    u128_count_ones, lemma_u128_ones_bound,
};

verus! {

/// The 400 fields of the board: `x + 21 * y` with `x < 20` and `y < 20`.
pub open spec fn valid_fields_spec() -> Bitboard {
    Bitboard(
        34359721983,
        337623909661717427026139553986326233087,
        329648537884054317714434393650000297983,
        297747050773401880467613752304696557567,
    )
}

/// The first column of the board (`x == 0`).
pub open spec fn column_mask_spec() -> Bitboard {
    Bitboard(
        32768,
        5316914518442072874470106890883956736,
        21267658073768291497880427563535826944,
        85070632295073165991521710254143307777,
    )
}

/// The first row of the board (`y == 0`).
pub open spec fn row_mask_spec() -> Bitboard {
    Bitboard(0, 0, 0, 1048575)
}

/// The four corners of the board.
pub open spec fn start_fields_spec() -> Bitboard {
    Bitboard(17179901952, 0, 0, 524289)
}

/// The 400 fields of the board.
pub fn valid_fields() -> (r: Bitboard)
    ensures
        r == valid_fields_spec(),
        forall|i: int| #[trigger] r.has(i) == is_valid_field(i),
{
    let r = Bitboard(
        34359721983,
        337623909661717427026139553986326233087,
        329648537884054317714434393650000297983,
        297747050773401880467613752304696557567,
    );
    proof {
        lemma_board_constants();
        assert(r == valid_fields_spec());
    }
    r
}

/// The first column of the board.
pub fn column_mask() -> (r: Bitboard)
    ensures
        r == column_mask_spec(),
        forall|i: int| #[trigger] r.has(i) == (0 <= i < 420 && i % 21 == 0),
{
    let r = Bitboard(
        32768,
        5316914518442072874470106890883956736,
        21267658073768291497880427563535826944,
        85070632295073165991521710254143307777,
    );
    proof {
        lemma_board_constants();
        assert(r == column_mask_spec());
    }
    r
}

/// The first row of the board.
pub fn row_mask() -> (r: Bitboard)
    ensures
        r == row_mask_spec(),
        forall|i: int| #[trigger] r.has(i) == (0 <= i < 20),
{
    let r = Bitboard(0, 0, 0, 1048575);
    proof {
        lemma_board_constants();
        assert(r == row_mask_spec());
    }
    r
}

/// The four corners of the board, at which the colors place their first pieces.
pub fn start_fields() -> (r: Bitboard)
    ensures
        r == start_fields_spec(),
        forall|i: int| #[trigger] r.has(i) == is_start_field(i),
{
    let r = Bitboard(17179901952, 0, 0, 524289);
    proof {
        lemma_board_constants();
        assert(r == start_fields_spec());
    }
    r
}

/// Every shape of every piece type, with its top left field at bit 0 of a 128-bit word.
pub open spec fn piece_shape_spec(shape: usize) -> u128 {
    match shape {
        0 => 1u128,
        1 => 3u128,
        2 => 2097153u128,
        3 => 7u128,
        4 => 4398048608257u128,
        5 => 15u128,
        6 => 9223376434903384065u128,
        7 => 31u128,
        8 => 19342822337210501698682881u128,
        9 => 6291459u128,
        10 => 8796107702274u128,
        11 => 6291457u128,
        12 => 2097155u128,
        13 => 4194307u128,
        14 => 6291458u128,
        15 => 4398048608259u128,
        16 => 8796097216515u128,
        17 => 13194143727618u128,
        18 => 13194141630465u128,
        19 => 14680065u128,
        20 => 2097159u128,
        21 => 8388615u128,
        22 => 14680068u128,
        23 => 16777231u128,
        24 => 2097167u128,
        25 => 31457281u128,
        26 => 31457288u128,
        27 => 9223376434903384067u128,
        28 => 27670120508612935681u128,
        29 => 18446752869806768131u128,
        30 => 27670124906661543938u128,
        31 => 8796097216519u128,
        32 => 30786329772034u128,
        33 => 4398061191169u128,
        34 => 17592200724484u128,
        35 => 4194311u128,
        36 => 14680066u128,
        37 => 4398052802561u128,
        38 => 8796099313666u128,
        39 => 6291462u128,
        40 => 12582915u128,
        41 => 4398052802562u128,
        42 => 8796099313665u128,
        43 => 17592200724481u128,
        44 => 4398061191172u128,
        45 => 13194143727622u128,
        46 => 26388283260931u128,
        47 => 10485767u128,
        48 => 14680069u128,
        49 => 13194141630467u128,
        50 => 13194143727619u128,
        51 => 13194152116226u128,
        52 => 26388285358082u128,
        53 => 8796099313670u128,
        54 => 8796105605123u128,
        55 => 8796107702276u128,
        56 => 8796107702273u128,
        57 => 17592200724482u128,
        58 => 4398061191170u128,
        59 => 26388285358081u128,
        60 => 13194152116228u128,
        61 => 17592198627331u128,
        62 => 4398052802566u128,
        63 => 9223385230998503426u128,
        64 => 18446757267851182081u128,
        65 => 9223376434907578370u128,
        66 => 18446752869808865281u128,
        67 => 14680076u128,
        68 => 25165831u128,
        69 => 29360131u128,
        70 => 6291470u128,
        71 => 4398048608263u128,
        72 => 30786333966340u128,
        73 => 17592194433031u128,
        74 => 30786327674881u128,
        75 => 4398052802563u128,
        76 => 8796099313667u128,
        77 => 14680067u128,
        78 => 6291463u128,
        79 => 12582919u128,
        80 => 14680070u128,
        81 => 13194145824770u128,
        82 => 13194145824769u128,
        83 => 9223376434907578369u128,
        84 => 9223385230996406273u128,
        85 => 18446757267853279234u128,
        86 => 18446752869808865282u128,
        87 => 8388623u128,
        88 => 4194319u128,
        89 => 31457284u128,
        90 => 31457282u128,
        _ => 0u128,
    }
}

/// The 128-bit word of shape `shape` (`shape < 91`).
pub fn piece_shape(shape: usize) -> (r: u128)
    requires
        shape < 91,
    ensures
        r == piece_shape_spec(shape),
{
    match shape {
        0 => 1,
        1 => 3,
        2 => 2097153,
        3 => 7,
        4 => 4398048608257,
        5 => 15,
        6 => 9223376434903384065,
        7 => 31,
        8 => 19342822337210501698682881,
        9 => 6291459,
        10 => 8796107702274,
        11 => 6291457,
        12 => 2097155,
        13 => 4194307,
        14 => 6291458,
        15 => 4398048608259,
        16 => 8796097216515,
        17 => 13194143727618,
        18 => 13194141630465,
        19 => 14680065,
        20 => 2097159,
        21 => 8388615,
        22 => 14680068,
        23 => 16777231,
        24 => 2097167,
        25 => 31457281,
        26 => 31457288,
        27 => 9223376434903384067,
        28 => 27670120508612935681,
        29 => 18446752869806768131,
        30 => 27670124906661543938,
        31 => 8796097216519,
        32 => 30786329772034,
        33 => 4398061191169,
        34 => 17592200724484,
        35 => 4194311,
        36 => 14680066,
        37 => 4398052802561,
        38 => 8796099313666,
        39 => 6291462,
        40 => 12582915,
        41 => 4398052802562,
        42 => 8796099313665,
        43 => 17592200724481,
        44 => 4398061191172,
        45 => 13194143727622,
        46 => 26388283260931,
        47 => 10485767,
        48 => 14680069,
        49 => 13194141630467,
        50 => 13194143727619,
        51 => 13194152116226,
        52 => 26388285358082,
        53 => 8796099313670,
        54 => 8796105605123,
        55 => 8796107702276,
        56 => 8796107702273,
        57 => 17592200724482,
        58 => 4398061191170,
        59 => 26388285358081,
        60 => 13194152116228,
        61 => 17592198627331,
        62 => 4398052802566,
        63 => 9223385230998503426,
        64 => 18446757267851182081,
        65 => 9223376434907578370,
        66 => 18446752869808865281,
        67 => 14680076,
        68 => 25165831,
        69 => 29360131,
        70 => 6291470,
        71 => 4398048608263,
        72 => 30786333966340,
        73 => 17592194433031,
        74 => 30786327674881,
        75 => 4398052802563,
        76 => 8796099313667,
        77 => 14680067,
        78 => 6291463,
        79 => 12582919,
        80 => 14680070,
        81 => 13194145824770,
        82 => 13194145824769,
        83 => 9223376434907578369,
        84 => 9223385230996406273,
        85 => 18446757267853279234,
        86 => 18446752869808865282,
        87 => 8388623,
        88 => 4194319,
        89 => 31457284,
        90 => 31457282,
        _ => 0,
    }
}

/// Field `i` lies on the 20x20 board.
pub open spec fn is_valid_field(i: int) -> bool {
    0 <= i < 420 && i % 21 != 20
}

/// Field `i` is one of the four corners of the board.
pub open spec fn is_start_field(i: int) -> bool {
    i == 0 || i == 19 || i == 399 || i == 418
}

/// The field at which a piece placed at `destination` has its top left field.
pub open spec fn piece_origin(destination: u16) -> int {
    if destination < 512 {
        destination as int
    } else {
        384 + destination % 128
    }
}

proof fn lemma_valid_words()
    by (bit_vector)
    ensures
        forall|i: u128| i < 128 ==> ((((297747050773401880467613752304696557567u128 >> i) & 1u128) == 1u128) <==> (i % 21u128 != 20u128)),
        forall|i: u128| i < 128 ==> ((((329648537884054317714434393650000297983u128 >> i) & 1u128) == 1u128) <==> (((i + 128u128) as u128) % 21u128 != 20u128)),
        forall|i: u128| i < 128 ==> ((((337623909661717427026139553986326233087u128 >> i) & 1u128) == 1u128) <==> (((i + 256u128) as u128) % 21u128 != 20u128)),
        forall|i: u128| i < 128 ==> ((((34359721983u128 >> i) & 1u128) == 1u128) <==> (i < 36u128 && ((i + 384u128) as u128) % 21u128 != 20u128)),
        forall|i: u128| i < 128 ==> ((((85070632295073165991521710254143307777u128 >> i) & 1u128) == 1u128) <==> (i % 21u128 == 0u128)),
        forall|i: u128| i < 128 ==> ((((21267658073768291497880427563535826944u128 >> i) & 1u128) == 1u128) <==> (((i + 128u128) as u128) % 21u128 == 0u128)),
        forall|i: u128| i < 128 ==> ((((5316914518442072874470106890883956736u128 >> i) & 1u128) == 1u128) <==> (((i + 256u128) as u128) % 21u128 == 0u128)),
        forall|i: u128| i < 128 ==> ((((32768u128 >> i) & 1u128) == 1u128) <==> (i < 36u128 && ((i + 384u128) as u128) % 21u128 == 0u128)),
        forall|i: u128| i < 128 ==> ((((1048575u128 >> i) & 1u128) == 1u128) <==> (i < 20)),
        forall|i: u128| i < 128 ==> ((((17179901952u128 >> i) & 1u128) == 1u128) <==> (i == 34 || i == 15)),
        forall|i: u128| i < 128 ==> ((((524289u128 >> i) & 1u128) == 1u128) <==> (i == 0 || i == 19)),
        forall|i: u128| i < 128 ==> (((0u128 >> i) & 1u128) != 1u128),
{
}

/// The bits of the board constants.
pub proof fn lemma_board_constants()
    ensures
        forall|i: int| #[trigger] valid_fields_spec().has(i) == is_valid_field(i),
        forall|i: int| #[trigger] column_mask_spec().has(i) == (0 <= i < 420 && i % 21 == 0),
        forall|i: int| #[trigger] row_mask_spec().has(i) == (0 <= i < 20),
        forall|i: int| #[trigger] start_fields_spec().has(i) == is_start_field(i),
{
    lemma_valid_words();
    assert forall|i: int| #[trigger] valid_fields_spec().has(i) == is_valid_field(i) by {
        if 0 <= i < 512 {
            let k: u128 = (i % 128) as u128;
            assert(k < 128);
        }
    }
    assert forall|i: int| #[trigger] column_mask_spec().has(i) == (0 <= i < 420 && i % 21 == 0) by {
        if 0 <= i < 512 {
            let k: u128 = (i % 128) as u128;
            assert(k < 128);
        }
    }
    assert forall|i: int| #[trigger] row_mask_spec().has(i) == (0 <= i < 20) by {
        if 0 <= i < 512 {
            let k: u128 = (i % 128) as u128;
            assert(k < 128);
        }
    }
    assert forall|i: int| #[trigger] start_fields_spec().has(i) == is_start_field(i) by {
        if 0 <= i < 512 {
            let k: u128 = (i % 128) as u128;
            assert(k < 128);
        }
    }
}

/// A 512-bit board. Field `x + 21 * y` of the 20x20 board is bit `x + 21 * y`; bit 0 is the
/// least significant bit of the last word and bit 511 the most significant bit of the first.
#[derive(Debug, Copy, Clone, PartialEq, Eq, Structural)]
pub struct Bitboard(pub u128, pub u128, pub u128, pub u128);

/// The bits of a board shifted up by `n`.
pub proof fn lemma_shl_bits(b: Bitboard, n: u8)
    requires
        0 < n < 128,
    ensures
        forall|i: int| #[trigger] b.shl_spec(n).has(i) == (n <= i < 512 && b.has(i - n)),
{
    let m: u8 = (128 - n) as u8;
    let a = b.0 << n;
    let bb = b.1 >> m;
    let c = b.1 << n;
    let d = b.2 >> m;
    let e = b.2 << n;
    let f = b.3 >> m;
    let g = b.3 << n;
    lemma_u128_shift(b.0, n as u128);
    lemma_u128_shift(b.1, n as u128);
    lemma_u128_shift(b.2, n as u128);
    lemma_u128_shift(b.3, n as u128);
    lemma_u128_shift(b.1, m as u128);
    lemma_u128_shift(b.2, m as u128);
    lemma_u128_shift(b.3, m as u128);
    lemma_u128_bitwise(a, bb);
    lemma_u128_bitwise(c, d);
    lemma_u128_bitwise(e, f);
    let r = b.shl_spec(n);
    assert(r == Bitboard(a | bb, c | d, e | f, g));
    assert forall|i: int| #[trigger] r.has(i) == (n <= i < 512 && b.has(i - n)) by {
        if 0 <= i < 128 {
            assert(r.has(i) == u128_bit(g, i));
        } else if i < 256 {
            assert(r.has(i) == (u128_bit(e, i - 128) || u128_bit(f, i - 128)));
        } else if i < 384 {
            assert(r.has(i) == (u128_bit(c, i - 256) || u128_bit(d, i - 256)));
        } else if i < 512 {
            assert(r.has(i) == (u128_bit(a, i - 384) || u128_bit(bb, i - 384)));
        }
    }
}

/// The bits of a piece placed at a destination: the bits of its shape word, moved up to the
/// piece's origin; bits moved past 511 are lost.
pub proof fn lemma_with_piece_bits(destination: u16, shape: usize)
    ensures
        forall|i: int|
            #[trigger] Bitboard::with_piece_spec(destination, shape).has(i) == (piece_origin(
                destination,
            ) <= i < 512 && u128_bit(piece_shape_spec(shape), i - piece_origin(destination))),
{
    let shape_word = piece_shape_spec(shape);
    let shift: u8 = (destination % 128) as u8;
    let word = destination >> 7;
    let board = if word == 0 {
        Bitboard(0, 0, 0, shape_word)
    } else if word == 1 {
        Bitboard(0, 0, shape_word, 0)
    } else if word == 2 {
        Bitboard(0, shape_word, 0, 0)
    } else {
        Bitboard(shape_word, 0, 0, 0)
    };
    lemma_u128_single(0);
    assert(word == destination / 128) by (bit_vector)
        requires word == destination >> 7u16;
    let base: int = if word < 3 { word * 128 } else { 384 };
    assert(piece_origin(destination) == base + shift);
    assert forall|i: int| #[trigger] board.has(i) == (base <= i < base + 128 && u128_bit(shape_word, i - base)) by {
    }
    if shift != 0 {
        lemma_shl_bits(board, shift);
    }
}

impl Bitboard {
    /// Whether bit `i` of the board is set; false outside `0..512`.
    pub open spec fn has(self, i: int) -> bool {
        if 0 <= i < 128 {
            u128_bit(self.3, i)
        } else if 128 <= i < 256 {
            u128_bit(self.2, i - 128)
        } else if 256 <= i < 384 {
            u128_bit(self.1, i - 256)
        } else if 384 <= i < 512 {
            u128_bit(self.0, i - 384)
        } else {
            false
        }
    }

    pub fn empty() -> (r: Bitboard)
        ensures
            r == Bitboard(0, 0, 0, 0),
            forall|i: int| !#[trigger] r.has(i),
    {
        proof {
            lemma_u128_single(0);
        }
        Bitboard(0, 0, 0, 0)
    }

    pub fn and(self, other: Bitboard) -> (r: Bitboard)
        ensures
            forall|i: int| #[trigger] r.has(i) == (self.has(i) && other.has(i)),
    {
        proof {
            lemma_u128_bitwise(self.0, other.0);
            lemma_u128_bitwise(self.1, other.1);
            lemma_u128_bitwise(self.2, other.2);
            lemma_u128_bitwise(self.3, other.3);
        }
        Bitboard(self.0 & other.0, self.1 & other.1, self.2 & other.2, self.3 & other.3)
    }

    pub fn or(self, other: Bitboard) -> (r: Bitboard)
        ensures
            forall|i: int| #[trigger] r.has(i) == (self.has(i) || other.has(i)),
    {
        proof {
            lemma_u128_bitwise(self.0, other.0);
            lemma_u128_bitwise(self.1, other.1);
            lemma_u128_bitwise(self.2, other.2);
            lemma_u128_bitwise(self.3, other.3);
        }
        Bitboard(self.0 | other.0, self.1 | other.1, self.2 | other.2, self.3 | other.3)
    }

    /// The boards xor-ed word by word.
    pub open spec fn xor_spec(self, other: Bitboard) -> Bitboard {
        Bitboard(self.0 ^ other.0, self.1 ^ other.1, self.2 ^ other.2, self.3 ^ other.3)
    }

    pub fn xor(self, other: Bitboard) -> (r: Bitboard)
        ensures
            r == self.xor_spec(other),
            forall|i: int| #[trigger] r.has(i) == (self.has(i) != other.has(i)),
    {
        proof {
            lemma_u128_bitwise(self.0, other.0);
            lemma_u128_bitwise(self.1, other.1);
            lemma_u128_bitwise(self.2, other.2);
            lemma_u128_bitwise(self.3, other.3);
        }
        Bitboard(self.0 ^ other.0, self.1 ^ other.1, self.2 ^ other.2, self.3 ^ other.3)
    }

    pub fn not(self) -> (r: Bitboard)
        ensures
            forall|i: int| #[trigger] r.has(i) == (0 <= i < 512 && !self.has(i)),
    {
        proof {
            lemma_u128_bitwise(self.0, self.0);
            lemma_u128_bitwise(self.1, self.1);
            lemma_u128_bitwise(self.2, self.2);
            lemma_u128_bitwise(self.3, self.3);
        }
        Bitboard(!self.0, !self.1, !self.2, !self.3)
    }

    /// The words of the board shifted `n` places up (`0 < n < 128`).
    pub open spec fn shl_spec(self, n: u8) -> Bitboard {
        let m = (128 - n) as u8;
        Bitboard(
            (self.0 << n) | (self.1 >> m),
            (self.1 << n) | (self.2 >> m),
            (self.2 << n) | (self.3 >> m),
            self.3 << n,
        )
    }

    /// The board of piece shape `shape` placed at `destination`, word by word.
    pub open spec fn with_piece_spec(destination: u16, shape: usize) -> Bitboard {
        let w = piece_shape_spec(shape);
        let word = destination >> 7;
        let shift = (destination % 128) as u8;
        let board = if word == 0 {
            Bitboard(0, 0, 0, w)
        } else if word == 1 {
            Bitboard(0, 0, w, 0)
        } else if word == 2 {
            Bitboard(0, w, 0, 0)
        } else {
            Bitboard(w, 0, 0, 0)
        };
        if shift != 0 {
            board.shl_spec(shift)
        } else {
            board
        }
    }

    /// Shifts every bit `n` places up; bits moved past 511 are lost. `0 < n < 128`.
    pub fn shl(self, n: u8) -> (r: Bitboard)
        requires
            0 < n < 128,
        ensures
            r == self.shl_spec(n),
            forall|i: int| #[trigger] r.has(i) == (n <= i < 512 && self.has(i - n)),
    {
        let m: u8 = 128 - n;
        proof {
            lemma_shl_bits(self, n);
        }
        Bitboard(
            (self.0 << n) | (self.1 >> m),
            (self.1 << n) | (self.2 >> m),
            (self.2 << n) | (self.3 >> m),
            self.3 << n,
        )
    }

    /// Shifts every bit `n` places down; bits moved below 0 are lost. `0 < n < 128`.
    pub fn shr(self, n: u8) -> (r: Bitboard)
        requires
            0 < n < 128,
        ensures
            forall|i: int| #[trigger] r.has(i) == (0 <= i && self.has(i + n)),
    {
        let m: u8 = 128 - n;
        let a = self.0 >> n;
        let b = self.1 >> n;
        let c = self.0 << m;
        let d = self.2 >> n;
        let e = self.1 << m;
        let f = self.3 >> n;
        let g = self.2 << m;
        proof {
            lemma_u128_shift(self.0, n as u128);
            lemma_u128_shift(self.1, n as u128);
            lemma_u128_shift(self.2, n as u128);
            lemma_u128_shift(self.3, n as u128);
            lemma_u128_shift(self.0, m as u128);
            lemma_u128_shift(self.1, m as u128);
            lemma_u128_shift(self.2, m as u128);
            lemma_u128_bitwise(b, c);
            lemma_u128_bitwise(d, e);
            lemma_u128_bitwise(f, g);
        }
        let r = Bitboard(a, b | c, d | e, f | g);
        assert forall|i: int| #[trigger] r.has(i) == (0 <= i && self.has(i + n)) by {
            if 0 <= i < 128 {
                assert(r.has(i) == (u128_bit(f, i) || u128_bit(g, i)));
            } else if 128 <= i < 256 {
                assert(r.has(i) == (u128_bit(d, i - 128) || u128_bit(e, i - 128)));
            } else if 256 <= i < 384 {
                assert(r.has(i) == (u128_bit(b, i - 256) || u128_bit(c, i - 256)));
            } else if 384 <= i < 512 {
                assert(r.has(i) == u128_bit(a, i - 384));
            }
        }
        r
    }

    /// The number of set bits.
    pub open spec fn count_ones_spec(self) -> nat {
        u128_ones(self.0, 128) + u128_ones(self.1, 128) + u128_ones(self.2, 128) + u128_ones(
            self.3,
            128,
        )
    }

    /// The board of piece shape `shape` whose top left field is placed at `destination`;
    /// fields shifted past bit 511 are lost.
    pub fn with_piece(destination: u16, shape: usize) -> (r: Bitboard)
        requires
            shape < 91,
        ensures
            r == Bitboard::with_piece_spec(destination, shape),
            forall|i: int|
                #[trigger] r.has(i) == (piece_origin(destination) <= i < 512 && u128_bit(
                    piece_shape_spec(shape),
                    i - piece_origin(destination),
                )),
    {
        proof {
            lemma_with_piece_bits(destination, shape);
        }
        let shape_word = piece_shape(shape);
        let shift: u8 = (destination % 128) as u8;
        let word = destination >> 7;
        let board = if word == 0 {
            Bitboard(0, 0, 0, shape_word)
        } else if word == 1 {
            Bitboard(0, 0, shape_word, 0)
        } else if word == 2 {
            Bitboard(0, shape_word, 0, 0)
        } else {
            Bitboard(shape_word, 0, 0, 0)
        };
        if shift != 0 {
            board.shl(shift)
        } else {
            board
        }
    }

    /// The board with only bit `bit_idx` set.
    pub fn bit(bit_idx: u16) -> (r: Bitboard)
        requires
            bit_idx < 512,
        ensures
            forall|i: int| #[trigger] r.has(i) == (i == bit_idx),
    {
        proof {
            lemma_u128_single(0);
        }
        if bit_idx < 128 {
            proof {
                lemma_u128_single(bit_idx as u128);
            }
            Bitboard(0, 0, 0, 1u128 << (bit_idx as u128))
        } else if bit_idx < 256 {
            proof {
                lemma_u128_single((bit_idx - 128) as u128);
            }
            Bitboard(0, 0, 1u128 << ((bit_idx - 128) as u128), 0)
        } else if bit_idx < 384 {
            proof {
                lemma_u128_single((bit_idx - 256) as u128);
            }
            Bitboard(0, 1u128 << ((bit_idx - 256) as u128), 0, 0)
        } else {
            proof {
                lemma_u128_single((bit_idx - 384) as u128);
            }
            Bitboard(1u128 << ((bit_idx - 384) as u128), 0, 0, 0)
        }
    }

    /// Whether bit `bit_idx` is set.
    pub fn check_bit(&self, bit_idx: u16) -> (r: bool)
        requires
            bit_idx < 512,
        ensures
            r == self.has(bit_idx as int),
    {
        let b = Bitboard::bit(bit_idx);
        let m = self.and(b);
        proof {
            lemma_u128_single(0);
            assert(self.has(bit_idx as int) == m.has(bit_idx as int));
            if m.0 == 0 && m.1 == 0 && m.2 == 0 && m.3 == 0 {
                assert(!m.has(bit_idx as int));
            } else {
                if m.3 != 0 {
                    let k = choose_set_bit(m.3);
                    assert(m.has(k));
                } else if m.2 != 0 {
                    let k = choose_set_bit(m.2);
                    assert(m.has(k + 128));
                } else if m.1 != 0 {
                    let k = choose_set_bit(m.1);
                    assert(m.has(k + 256));
                } else {
                    let k = choose_set_bit(m.0);
                    assert(m.has(k + 384));
                }
            }
        }
        m.0 != 0 || m.1 != 0 || m.2 != 0 || m.3 != 0
    }

    /// Toggles bit `bit_idx`.
    pub fn flip_bit(&mut self, bit_idx: u16)
        requires
            bit_idx < 512,
        ensures
            forall|i: int| #[trigger] final(self).has(i) == (old(self).has(i) != (i == bit_idx)),
    {
        let b = Bitboard::bit(bit_idx);
        *self = self.xor(b);
    }

    /// The index of the lowest set bit, or 512 for the empty board.
    pub fn trailing_zeros(&self) -> (r: u16)
        ensures
            r <= 512,
            (r == 512) == (*self == Bitboard(0, 0, 0, 0)),
            forall|j: int| 0 <= j < r ==> !#[trigger] self.has(j),
            r < 512 ==> self.has(r as int),
    {
        if self.3 != 0 {
            u128_trailing_zeros(self.3) as u16
        } else if self.2 != 0 {
            proof {
                lemma_u128_single(0);
            }
            u128_trailing_zeros(self.2) as u16 + 128
        } else if self.1 != 0 {
            proof {
                lemma_u128_single(0);
            }
            u128_trailing_zeros(self.1) as u16 + 256
        } else if self.0 != 0 {
            proof {
                lemma_u128_single(0);
            }
            u128_trailing_zeros(self.0) as u16 + 384
        } else {
            proof {
                lemma_u128_single(0);
            }
            512
        }
    }

    /// Shifts every bit `n` places down, for any `n`.
    pub fn r_shift_save(&self, n: usize) -> (r: Bitboard)
        ensures
            forall|i: int| #[trigger] r.has(i) == (0 <= i && self.has(i + n)),
    {
        let mut ret = *self;
        let mut m = n;
        while m > 127
            invariant
                m <= n,
                forall|i: int| #[trigger] ret.has(i) == (0 <= i && self.has(i + (n - m))),
            decreases m,
        {
            m = m - 127;
            let prev = ret;
            ret = ret.shr(127);
            assert forall|i: int| #[trigger] ret.has(i) == (0 <= i && self.has(i + (n - m))) by {
                assert(ret.has(i) == (0 <= i && prev.has(i + 127)));
                if 0 <= i {
                    assert(prev.has(i + 127) == self.has(i + 127 + (n - m - 127)));
                }
            }
        }
        if m != 0 {
            let r = ret.shr(m as u8);
            assert forall|i: int| #[trigger] r.has(i) == (0 <= i && self.has(i + n)) by {
                if 0 <= i {
                    assert(ret.has(i + m) == self.has(i + m + (n - m)));
                }
            }
            r
        } else {
            ret
        }
    }

    /// Shifts every bit `n` places up, for any `n`; bits moved past 511 are lost.
    pub fn l_shift_save(&self, n: usize) -> (r: Bitboard)
        ensures
            forall|i: int| #[trigger] r.has(i) == (n <= i < 512 && self.has(i - n)),
    {
        let mut ret = *self;
        let mut m = n;
        while m > 127
            invariant
                m <= n,
                forall|i: int| #[trigger] ret.has(i) == (n - m <= i < 512 && self.has(i - (n - m))),
            decreases m,
        {
            m = m - 127;
            let prev = ret;
            ret = ret.shl(127);
            assert forall|i: int| #[trigger] ret.has(i) == (n - m <= i < 512 && self.has(i - (n - m))) by {
                assert(ret.has(i) == (127 <= i < 512 && prev.has(i - 127)));
            }
        }
        if m != 0 {
            let r = ret.shl(m as u8);
            assert forall|i: int| #[trigger] r.has(i) == (n <= i < 512 && self.has(i - n)) by {
                assert(r.has(i) == (m <= i < 512 && ret.has(i - m)));
            }
            r
        } else {
            ret
        }
    }

    /// The number of set bits.
    pub fn count_ones(&self) -> (r: u32)
        ensures
            r == self.count_ones_spec(),
            r <= 512,
    {
        proof {
            lemma_u128_ones_bound(self.0, 128);
            lemma_u128_ones_bound(self.1, 128);
            lemma_u128_ones_bound(self.2, 128);
            lemma_u128_ones_bound(self.3, 128);
        }
        u128_count_ones(self.0) + u128_count_ones(self.1) + u128_count_ones(self.2)
            + u128_count_ones(self.3)
    }

    /// Whether no bit is set.
    pub fn is_empty(&self) -> (r: bool)
        ensures
            r == (*self == Bitboard(0, 0, 0, 0)),
            r == (forall|i: int| !#[trigger] self.has(i)),
    {
        proof {
            lemma_empty_iff(*self);
        }
        self.0 == 0 && self.1 == 0 && self.2 == 0 && self.3 == 0
    }

    /// Whether some bit is set.
    pub fn not_empty(&self) -> (r: bool)
        ensures
            r == (*self != Bitboard(0, 0, 0, 0)),
            r == (exists|i: int| #[trigger] self.has(i)),
    {
        proof {
            lemma_empty_iff(*self);
        }
        self.0 != 0 || self.1 != 0 || self.2 != 0 || self.3 != 0
    }

    /// The valid fields next to a set bit (left, right, above or below).
    pub fn neighbours(&self) -> (r: Bitboard)
        ensures
            forall|i: int|
                #[trigger] r.has(i) == (is_valid_field(i) && (self.has(i - 1) || self.has(i + 1)
                    || self.has(i - 21) || self.has(i + 21))),
    {
        let a = self.shl(1);
        let b = self.shr(1);
        let c = self.shr(21);
        let d = self.shl(21);
        a.or(b).or(c).or(d).and(valid_fields())
    }

    /// The valid fields diagonally next to a set bit.
    pub fn diagonal_neighbours(&self) -> (r: Bitboard)
        ensures
            forall|i: int|
                #[trigger] r.has(i) == (is_valid_field(i) && (self.has(i - 22) || self.has(i + 22)
                    || self.has(i - 20) || self.has(i + 20))),
    {
        let a = self.shl(22);
        let b = self.shr(22);
        let c = self.shr(20);
        let d = self.shl(20);
        a.or(b).or(c).or(d).and(valid_fields())
    }
}

/// Some set bit of a nonzero word.
pub proof fn choose_set_bit(x: u128) -> (k: int)
    requires
        x != 0,
    ensures
        0 <= k < 128,
        u128_bit(x, k),
{
    let k = choose|k: int| u128_bit(x, k);
    lemma_nonzero_has_bit(x);
    k
}

proof fn lemma_nonzero_has_bit(x: u128)
    requires
        x != 0,
    ensures
        exists|k: int| u128_bit(x, k),
{
    lemma_mask_top(x);
    if (x >> 127u128) & 1u128 == 1u128 {
        assert(u128_bit(x, 127));
    } else {
        let k = find_set_bit(x, 127);
        assert(u128_bit(x, k));
    }
}

proof fn find_set_bit(x: u128, n: u128) -> (k: int)
    requires
        1 <= n <= 127,
        x & (((1u128 << n) - 1u128) as u128) != 0,
    ensures
        u128_bit(x, k),
    decreases n,
{
    lemma_mask_step(x, n);
    if (x >> (n - 1) as u128) & 1u128 == 1u128 {
        (n - 1) as int
    } else {
        find_set_bit(x, (n - 1) as u128)
    }
}

proof fn lemma_mask_top(x: u128)
    by (bit_vector)
    requires
        x != 0,
    ensures
        (x & (((1u128 << 127u128) - 1u128) as u128)) != 0 || (x >> 127u128) & 1u128 == 1u128,
{
}

proof fn lemma_mask_step(x: u128, n: u128)
    by (bit_vector)
    requires
        1 <= n <= 127,
        x & (((1u128 << n) - 1u128) as u128) != 0,
    ensures
        (x & (((1u128 << (n - 1u128) as u128) - 1u128) as u128)) != 0 || (x >> (n - 1u128) as u128) & 1u128 == 1u128,
        n == 1 ==> (x >> 0u128) & 1u128 == 1u128,
{
}

/// A board is all zero exactly when no bit is set.
pub proof fn lemma_empty_iff(b: Bitboard)
    ensures
        (b == Bitboard(0, 0, 0, 0)) == (forall|i: int| !#[trigger] b.has(i)),
{
    lemma_u128_single(0);
    if b != Bitboard(0, 0, 0, 0) {
        if b.3 != 0 {
            let k = choose_set_bit(b.3);
            assert(b.has(k));
        } else if b.2 != 0 {
            let k = choose_set_bit(b.2);
            assert(b.has(k + 128));
        } else if b.1 != 0 {
            let k = choose_set_bit(b.1);
            assert(b.has(k + 256));
        } else {
            let k = choose_set_bit(b.0);
            assert(b.has(k + 384));
        }
    }
}

pub proof fn lemma_xor_nonzero(x: u128, y: u128)
    by (bit_vector)
    requires
        x != y,
    ensures
        x ^ y != 0,
{
}

/// Two boards with the same set bits are equal.
pub proof fn lemma_has_ext(a: Bitboard, b: Bitboard)
    requires
        forall|i: int| #[trigger] a.has(i) == b.has(i),
    ensures
        a == b,
{
    if a.3 != b.3 {
        lemma_u128_bitwise(a.3, b.3);
        lemma_xor_nonzero(a.3, b.3);
        let k = choose_set_bit(a.3 ^ b.3);
        assert(a.has(k) != b.has(k));
    }
    if a.2 != b.2 {
        lemma_u128_bitwise(a.2, b.2);
        lemma_xor_nonzero(a.2, b.2);
        let k = choose_set_bit(a.2 ^ b.2);
        assert(a.has(k + 128) != b.has(k + 128));
    }
    if a.1 != b.1 {
        lemma_u128_bitwise(a.1, b.1);
        lemma_xor_nonzero(a.1, b.1);
        let k = choose_set_bit(a.1 ^ b.1);
        assert(a.has(k + 256) != b.has(k + 256));
    }
    if a.0 != b.0 {
        lemma_u128_bitwise(a.0, b.0);
        lemma_xor_nonzero(a.0, b.0);
        let k = choose_set_bit(a.0 ^ b.0);
        assert(a.has(k + 384) != b.has(k + 384));
    }
}

} // verus!

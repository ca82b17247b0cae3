use vstd::prelude::*;
use crate::bitboard::Bitboard;
use crate::gamestate::GameState;
use crate::piece_type::{PieceType, piece_type_spec};
use crate::text::{
    decimal, digits_value, is_digit, number_digits, is_number_text, parse_u128_spec, parse_u128,
    push_char, push_chars, decimal_chars, digit_char,
};

verus! {

broadcast use vstd::array::group_array_axioms;

/// The fields of `s` separated by single spaces, as `str::split(' ')` gives them (two spaces
/// in a row give an empty field).
pub open spec fn fields(s: Seq<char>) -> Seq<Seq<char>>
    decreases s.len(),
{
    if s.len() == 0 {
        seq![Seq::<char>::empty()]
    } else {
        let f = fields(s.drop_last());
        if s.last() == ' ' {
            f.push(Seq::<char>::empty())
        } else {
            f.update(f.len() - 1, f.last().push(s.last()))
        }
    }
}

/// The numbers written in decimal and separated by single spaces.
pub open spec fn spaced(ns: Seq<u128>) -> Seq<char>
    decreases ns.len(),
{
    if ns.len() <= 1 {
        if ns.len() == 0 {
            Seq::<char>::empty()
        } else {
            decimal(ns[0] as nat)
        }
    } else {
        spaced(ns.drop_last()).push(' ') + decimal(ns.last() as nat)
    }
}

/// Bit `k` of `x` as a number.
pub open spec fn flag(b: bool) -> u128 {
    if b {
        1
    } else {
        0
    }
}

/// The word of a position's flags: the monomino flags in bits 0 to 3, the start piece type
/// from bit 4, the ply from bit 9 and the skip record from bit 17.
pub open spec fn fen_data(s: GameState) -> u128 {
    ((s.start_piece_type.index_spec() as u128) << 4u128) | ((s.ply as u128) << 9u128) | ((
    s.skipped as u128) << 17u128) | flag(s.monomino_placed_last[0]) | (flag(
        s.monomino_placed_last[1],
    ) << 1u128) | (flag(s.monomino_placed_last[2]) << 2u128) | (flag(s.monomino_placed_last[3])
        << 3u128)
}

/// The bits `0..k` of the word of used pieces: bit `t + 21 * c` is set when color `c` has
/// placed piece type `t`.
pub open spec fn fen_pieces_upto(s: GameState, k: nat) -> u128
    decreases k,
{
    if k == 0 {
        0
    } else {
        let j = (k - 1) as int;
        fen_pieces_upto(s, (k - 1) as nat) | if !s.pieces_left[j % 21][j / 21] {
            1u128 << (j as u128)
        } else {
            0u128
        }
    }
}

/// The eighteen numbers of a position's FEN: the flags word, the used pieces word and the four
/// words of each color's board.
pub open spec fn fen_numbers(s: GameState) -> Seq<u128> {
    seq![
        fen_data(s),
        fen_pieces_upto(s, 84),
        s.board[0].0,
        s.board[0].1,
        s.board[0].2,
        s.board[0].3,
        s.board[1].0,
        s.board[1].1,
        s.board[1].2,
        s.board[1].3,
        s.board[2].0,
        s.board[2].1,
        s.board[2].2,
        s.board[2].3,
        s.board[3].0,
        s.board[3].1,
        s.board[3].2,
        s.board[3].3,
    ]
}

/// The text can be read as a FEN: it has at least eighteen space separated fields, the first
/// eighteen are numbers that fit in 128 bits, and the start piece type is one of the 21.
pub open spec fn is_fen(s: Seq<char>) -> bool {
    &&& fields(s).len() >= 18
    &&& forall|k: int| 0 <= k < 18 ==> #[trigger] parse_u128_spec(fields(s)[k]) is Some
    &&& (parse_u128_spec(fields(s)[0])->0 >> 4u128) & 31u128 < 21
}

/// The number in field `k` of a FEN.
pub open spec fn fen_field(s: Seq<char>, k: int) -> u128 {
    parse_u128_spec(fields(s)[k])->0
}

/// The position that FEN `text` describes; its hash is 0.
pub open spec fn from_fen_spec(text: Seq<char>, r: GameState) -> bool {
    let data = fen_field(text, 0);
    let pieces = fen_field(text, 1);
    &&& r.start_piece_type == piece_type_spec(((data >> 4u128) & 31u128) as int)
    &&& r.ply == ((data >> 9u128) & 255u128) as u8
    &&& r.skipped == (data >> 17u128) as u64
    &&& forall|t: int, c: int|
        0 <= t < 21 && 0 <= c < 4 ==> #[trigger] r.pieces_left[t][c] == ((pieces >> ((t + 21
            * c) as u128)) & 1u128 == 0u128)
    &&& forall|c: int| 0 <= c < 4 ==> #[trigger] r.monomino_placed_last[c] == ((data >> (c as u128)) & 1u128 == 1u128)
    &&& forall|c: int|
        0 <= c < 4 ==> #[trigger] r.board[c] == Bitboard(
            fen_field(text, 2 + 4 * c),
            fen_field(text, 3 + 4 * c),
            fen_field(text, 4 + 4 * c),
            fen_field(text, 5 + 4 * c),
        )
    &&& r.hash == 0
}

proof fn lemma_fields_len(s: Seq<char>)
    ensures
        fields(s).len() >= 1,
    decreases s.len(),
{
    if s.len() > 0 {
        lemma_fields_len(s.drop_last());
    }
}

/// A text without spaces is one field.
proof fn lemma_fields_single(t: Seq<char>)
    requires
        forall|i: int| 0 <= i < t.len() ==> #[trigger] t[i] != ' ',
    ensures
        fields(t) == seq![t],
    decreases t.len(),
{
    if t.len() > 0 {
        lemma_fields_single(t.drop_last());
        assert(t.drop_last().push(t.last()) =~= t);
        assert(fields(t) =~= seq![t]);
    } else {
        assert(t =~= Seq::<char>::empty());
    }
}

/// Appending a space and a text without spaces appends one field.
proof fn lemma_fields_append(x: Seq<char>, t: Seq<char>)
    requires
        forall|i: int| 0 <= i < t.len() ==> #[trigger] t[i] != ' ',
    ensures
        fields(x.push(' ') + t) == fields(x).push(t),
    decreases t.len(),
{
    lemma_fields_len(x);
    if t.len() == 0 {
        assert(x.push(' ') + t =~= x.push(' '));
        assert(t =~= Seq::<char>::empty());
        assert(x.push(' ').drop_last() =~= x);
        assert(x.push(' ').last() == ' ');
    } else {
        let u = t.drop_last();
        lemma_fields_append(x, u);
        let y = x.push(' ') + t;
        assert(y.drop_last() =~= x.push(' ') + u);
        assert(y.last() == t.last());
        assert(t[t.len() - 1] != ' ');
        assert(u.push(t.last()) =~= t);
        let f = fields(x).push(u);
        assert(fields(y) == f.update(f.len() - 1, f.last().push(t.last())));
        assert(fields(y) =~= fields(x).push(t));
    }
}

/// The decimal representation of a number is a nonempty run of digits.
pub proof fn lemma_decimal_digits(n: nat)
    ensures
        decimal(n).len() > 0,
        forall|i: int| 0 <= i < decimal(n).len() ==> is_digit(#[trigger] decimal(n)[i]),
        digits_value(decimal(n)) == n,
    decreases n,
{
    lemma_digit_char((n % 10) as int);
    if n >= 10 {
        lemma_decimal_digits(n / 10);
        assert(decimal(n).drop_last() =~= decimal(n / 10));
        assert(decimal(n).last() == digit_char((n % 10) as int));
    } else {
        assert(decimal(n).drop_last() =~= Seq::<char>::empty());
        assert(digits_value(Seq::<char>::empty()) == 0);
    }
}

proof fn lemma_digit_char(d: int)
    requires
        0 <= d < 10,
    ensures
        digit_char(d) as int == d + 48,
        is_digit(digit_char(d)),
{
}

/// Reading back the decimal representation of a number gives the number.
pub proof fn lemma_parse_decimal(n: u128)
    ensures
        parse_u128_spec(decimal(n as nat)) == Some(n),
{
    lemma_decimal_digits(n as nat);
    let d = decimal(n as nat);
    assert(is_digit(d[0]));
    assert(number_digits(d) == d);
}

pub proof fn lemma_fields_spaced(ns: Seq<u128>)
    requires
        ns.len() >= 1,
    ensures
        fields(spaced(ns)).len() == ns.len(),
        forall|k: int| 0 <= k < ns.len() ==> #[trigger] fields(spaced(ns))[k] == decimal(ns[k] as nat),
    decreases ns.len(),
{
    if ns.len() == 1 {
        lemma_decimal_digits(ns[0] as nat);
        assert forall|i: int| 0 <= i < decimal(ns[0] as nat).len() implies #[trigger] decimal(
            ns[0] as nat,
        )[i] != ' ' by {
            assert(is_digit(decimal(ns[0] as nat)[i]));
        }
        lemma_fields_single(decimal(ns[0] as nat));
    } else {
        let m = ns.drop_last();
        lemma_fields_spaced(m);
        lemma_decimal_digits(ns.last() as nat);
        let t = decimal(ns.last() as nat);
        assert forall|i: int| 0 <= i < t.len() implies #[trigger] t[i] != ' ' by {
            assert(is_digit(t[i]));
        }
        lemma_fields_append(spaced(m), t);
        assert forall|k: int| 0 <= k < ns.len() implies #[trigger] fields(spaced(ns))[k] == decimal(
            ns[k] as nat,
        ) by {
            if k < m.len() {
                assert(m[k] == ns[k]);
            }
        }
    }
}

proof fn lemma_fen_data_bits(idx: u128, ply: u128, sk: u128, m0: u128, m1: u128, m2: u128, m3: u128)
    by (bit_vector)
    requires
        idx < 32,
        ply < 256,
        sk < 0x10000000000000000u128,
        m0 < 2,
        m1 < 2,
        m2 < 2,
        m3 < 2,
    ensures
        ((((idx << 4u128) | (ply << 9u128) | (sk << 17u128) | m0 | (m1 << 1u128) | (m2 << 2u128) | (m3
            << 3u128)) >> 4u128) & 31u128) == idx,
        ((((idx << 4u128) | (ply << 9u128) | (sk << 17u128) | m0 | (m1 << 1u128) | (m2 << 2u128) | (m3
            << 3u128)) >> 9u128) & 255u128) == ply,
        (((idx << 4u128) | (ply << 9u128) | (sk << 17u128) | m0 | (m1 << 1u128) | (m2 << 2u128) | (m3
            << 3u128)) >> 17u128) == sk,
        ((((idx << 4u128) | (ply << 9u128) | (sk << 17u128) | m0 | (m1 << 1u128) | (m2 << 2u128) | (m3
            << 3u128)) >> 0u128) & 1u128 == 1u128) == (m0 == 1),
        ((((idx << 4u128) | (ply << 9u128) | (sk << 17u128) | m0 | (m1 << 1u128) | (m2 << 2u128) | (m3
            << 3u128)) >> 1u128) & 1u128 == 1u128) == (m1 == 1),
        ((((idx << 4u128) | (ply << 9u128) | (sk << 17u128) | m0 | (m1 << 1u128) | (m2 << 2u128) | (m3
            << 3u128)) >> 2u128) & 1u128 == 1u128) == (m2 == 1),
        ((((idx << 4u128) | (ply << 9u128) | (sk << 17u128) | m0 | (m1 << 1u128) | (m2 << 2u128) | (m3
            << 3u128)) >> 3u128) & 1u128 == 1u128) == (m3 == 1),
{
}

proof fn lemma_or_bit(x: u128, b: u128, j: u128, k: u128)
    by (bit_vector)
    requires
        j < 128,
        k < 128,
        b == 0 || b == 1u128 << j,
    ensures
        ((x | b) >> k) & 1u128 == if k == j && b != 0 {
            1u128
        } else {
            (x >> k) & 1u128
        },
        (x >> k) & 1u128 == 0 || (x >> k) & 1u128 == 1,
{
}

proof fn lemma_pieces_bits(s: GameState, k: nat)
    requires
        k <= 84,
    ensures
        forall|j: int|
            0 <= j < 128 ==> #[trigger] ((fen_pieces_upto(s, k) >> (j as u128)) & 1u128) == if j < k
                && !s.pieces_left[j % 21][j / 21] {
                1u128
            } else {
                0u128
            },
    decreases k,
{
    if k == 0 {
        assert forall|j: int| 0 <= j < 128 implies #[trigger] ((fen_pieces_upto(s, k) >> (j as u128))
            & 1u128) == 0u128 by {
            let jj = j as u128;
            assert((0u128 >> jj) & 1u128 == 0u128) by (bit_vector);
        }
    } else {
        lemma_pieces_bits(s, (k - 1) as nat);
        let i = (k - 1) as int;
        let b = if !s.pieces_left[i % 21][i / 21] { 1u128 << (i as u128) } else { 0u128 };
        let x = fen_pieces_upto(s, (k - 1) as nat);
        assert(fen_pieces_upto(s, k) == x | b);
        assert forall|j: int| 0 <= j < 128 implies #[trigger] ((fen_pieces_upto(s, k) >> (j as u128))
            & 1u128) == if j < k && !s.pieces_left[j % 21][j / 21] {
            1u128
        } else {
            0u128
        } by {
            lemma_or_bit(x, b, i as u128, j as u128);
            assert(((x >> (j as u128)) & 1u128) == if j < k - 1 && !s.pieces_left[j % 21][j / 21] {
                1u128
            } else {
                0u128
            });
            if j == i {
                if !s.pieces_left[i % 21][i / 21] {
                    assert(b != 0u128) by {
                        let ii = i as u128;
                        assert((1u128 << ii) != 0u128) by (bit_vector)
                            requires ii < 128u128;
                    }
                }
            }
        }
    }
}

impl Bitboard {
    /// The four words of the board in decimal, from the highest, separated by spaces.
    pub fn to_fen(&self) -> (r: String)
        ensures
            r@ == spaced(seq![self.0, self.1, self.2, self.3]),
    {
        let mut s = String::new();
        push_chars(&mut s, &decimal_chars(self.0));
        push_char(&mut s, ' ');
        push_chars(&mut s, &decimal_chars(self.1));
        push_char(&mut s, ' ');
        push_chars(&mut s, &decimal_chars(self.2));
        push_char(&mut s, ' ');
        push_chars(&mut s, &decimal_chars(self.3));
        proof {
            let ns = seq![self.0, self.1, self.2, self.3];
            assert(ns.drop_last().drop_last().drop_last() =~= seq![self.0]);
            assert(ns.drop_last().drop_last() =~= seq![self.0, self.1]);
            assert(ns.drop_last() =~= seq![self.0, self.1, self.2]);
            reveal_with_fuel(spaced, 5);
            assert(s@ =~= spaced(ns));
        }
        s
    }
}

/// Splits `s` at every space, as `str::split(' ')` does.
pub fn split_fields(s: &Vec<char>) -> (r: Vec<Vec<char>>)
    ensures
        r@.len() == fields(s@).len(),
        forall|k: int| 0 <= k < r@.len() ==> (#[trigger] r@[k])@ == fields(s@)[k],
{
    let mut out: Vec<Vec<char>> = Vec::new();
    let mut cur: Vec<char> = Vec::new();
    let mut i: usize = 0;
    proof {
        assert(s@.subrange(0, 0) =~= Seq::<char>::empty());
    }
    while i < s.len()
        invariant
            i <= s@.len(),
            out@.len() + 1 == fields(s@.subrange(0, i as int)).len(),
            forall|k: int| 0 <= k < out@.len() ==> (#[trigger] out@[k])@ == fields(s@.subrange(0, i as int))[k],
            cur@ == fields(s@.subrange(0, i as int)).last(),
        decreases s@.len() - i,
    {
        let c = s[i];
        let ghost sub = s@.subrange(0, i + 1);
        proof {
            assert(sub.drop_last() =~= s@.subrange(0, i as int));
            assert(sub.last() == c);
            lemma_fields_len(s@.subrange(0, i as int));
        }
        if c == ' ' {
            let done = cur;
            out.push(done);
            cur = Vec::new();
            proof {
                assert(cur@ =~= Seq::<char>::empty());
            }
        } else {
            cur.push(c);
        }
        i = i + 1;
    }
    proof {
        assert(s@.subrange(0, s@.len() as int) =~= s@);
    }
    out.push(cur);
    out
}

impl GameState {
    /// The position as text: eighteen decimal numbers separated by spaces (see `fen_numbers`).
    pub fn to_fen(&self) -> (r: String)
        ensures
            r@ == spaced(fen_numbers(*self)),
    {
        let mut pieces: u128 = 0;
        let mut color: usize = 0;
        while color < 4
            invariant
                color <= 4,
                pieces == fen_pieces_upto(*self, (21 * color) as nat),
            decreases 4 - color,
        {
            let mut piece_type: usize = 0;
            while piece_type < 21
                invariant
                    color < 4,
                    piece_type <= 21,
                    pieces == fen_pieces_upto(*self, (21 * color + piece_type) as nat),
                decreases 21 - piece_type,
            {
                let k = piece_type + color * 21;
                proof {
                    assert(k % 21 == piece_type && k / 21 == color);
                }
                if !self.pieces_left[piece_type][color] {
                    pieces = pieces | (1u128 << (k as u128));
                } else {
                    proof {
                        let x = pieces;
                        assert(x | 0u128 == x) by (bit_vector);
                    }
                }
                piece_type = piece_type + 1;
            }
            color = color + 1;
        }
        let f0: u128 = if self.monomino_placed_last[0] { 1 } else { 0 };
        let f1: u128 = if self.monomino_placed_last[1] { 1 } else { 0 };
        let f2: u128 = if self.monomino_placed_last[2] { 1 } else { 0 };
        let f3: u128 = if self.monomino_placed_last[3] { 1 } else { 0 };
        let data: u128 = ((self.start_piece_type.index() as u128) << 4u128) | ((self.ply as u128)
            << 9u128) | ((self.skipped as u128) << 17u128) | f0 | (f1 << 1u128) | (f2 << 2u128) | (
        f3 << 3u128);
        proof {
            assert(data == fen_data(*self));
        }
        let mut s = String::new();
        push_chars(&mut s, &decimal_chars(data));
        push_char(&mut s, ' ');
        push_chars(&mut s, &decimal_chars(pieces));
        proof {
            let f = fen_numbers(*self);
            assert(f.subrange(0, 2).drop_last() =~= seq![data]);
            reveal_with_fuel(spaced, 3);
            assert(s@ =~= spaced(f.subrange(0, 2)));
        }
        let mut c: usize = 0;
        while c < 4
            invariant
                c <= 4,
                s@ == spaced(fen_numbers(*self).subrange(0, 2 + 4 * c)),
            decreases 4 - c,
        {
            let b = self.board[c];
            let ghost before = s@;
            push_char(&mut s, ' ');
            push_chars(&mut s, &decimal_chars(b.0));
            push_char(&mut s, ' ');
            push_chars(&mut s, &decimal_chars(b.1));
            push_char(&mut s, ' ');
            push_chars(&mut s, &decimal_chars(b.2));
            push_char(&mut s, ' ');
            push_chars(&mut s, &decimal_chars(b.3));
            proof {
                let f = fen_numbers(*self);
                let n = 2 + 4 * c;
                assert(f.subrange(0, n + 4).drop_last() =~= f.subrange(0, n + 3));
                assert(f.subrange(0, n + 3).drop_last() =~= f.subrange(0, n + 2));
                assert(f.subrange(0, n + 2).drop_last() =~= f.subrange(0, n + 1));
                assert(f.subrange(0, n + 1).drop_last() =~= f.subrange(0, n as int));
                assert(f[n] == b.0 && f[n + 1] == b.1 && f[n + 2] == b.2 && f[n + 3] == b.3);
                reveal_with_fuel(spaced, 5);
                assert(s@ =~= spaced(f.subrange(0, n + 4)));
            }
            c = c + 1;
        }
        proof {
            assert(fen_numbers(*self).subrange(0, 18) =~= fen_numbers(*self));
        }
        s
    }

    /// Whether the text can be read as a FEN (see `is_fen`).
    pub fn is_fen_text(string: &String) -> (r: bool)
        ensures
            r == is_fen(string@),
    {
        let chars = crate::text::chars_of(string.as_str());
        let entries = split_fields(&chars);
        if entries.len() < 18 {
            return false;
        }
        let mut k: usize = 0;
        while k < 18
            invariant
                k <= 18,
                entries@.len() == fields(string@).len(),
                entries@.len() >= 18,
                forall|j: int| 0 <= j < entries@.len() ==> (#[trigger] entries@[j])@ == fields(string@)[j],
                forall|j: int| 0 <= j < k ==> #[trigger] parse_u128_spec(fields(string@)[j]) is Some,
            decreases 18 - k,
        {
            if parse_u128(&entries[k]).is_none() {
                proof {
                    assert(entries@[k as int]@ == fields(string@)[k as int]);
                }
                return false;
            }
            k = k + 1;
        }
        let data = parse_u128(&entries[0]).unwrap();
        (data >> 4u128) & 0b11111u128 < 21
    }

    /// The position described by a FEN (see `to_fen`); the hash is 0.
    pub fn from_fen(string: String) -> (r: GameState)
        requires
            is_fen(string@),
        ensures
            from_fen_spec(string@, r),
    {
        let chars = crate::text::chars_of(string.as_str());
        let entries = split_fields(&chars);
        let mut state = GameState::default();
        let data = parse_u128(&entries[0]).unwrap();
        state.start_piece_type = PieceType::from_index(((data >> 4u128) & 0b11111u128) as usize);
        state.ply = ((data >> 9u128) & 0b11111111u128) as u8;
        state.skipped = (data >> 17u128) as u64;
        let pieces = parse_u128(&entries[1]).unwrap();
        let ghost st0 = state;
        let mut color: usize = 0;
        while color < 4
            invariant
                color <= 4,
                state.ply == st0.ply,
                state.skipped == st0.skipped,
                state.start_piece_type == st0.start_piece_type,
                state.hash == 0,
                forall|c: int| 0 <= c < 4 ==> #[trigger] state.board[c] == Bitboard(0, 0, 0, 0),
                forall|t: int, c: int|
                    0 <= t < 21 && 0 <= c < 4 ==> #[trigger] state.pieces_left[t][c] == if c < color {
                        (pieces >> ((t + 21 * c) as u128)) & 1u128 == 0u128
                    } else {
                        true
                    },
                forall|c: int|
                    0 <= c < 4 ==> #[trigger] state.monomino_placed_last[c] == if c < color {
                        (data >> (c as u128)) & 1u128 == 1u128
                    } else {
                        false
                    },
            decreases 4 - color,
        {
            let mut piece_type: usize = 0;
            while piece_type < 21
                invariant
                    color < 4,
                    piece_type <= 21,
                    state.ply == st0.ply,
                    state.skipped == st0.skipped,
                    state.start_piece_type == st0.start_piece_type,
                    state.hash == 0,
                    forall|c: int| 0 <= c < 4 ==> #[trigger] state.board[c] == Bitboard(0, 0, 0, 0),
                    forall|t: int, c: int|
                        0 <= t < 21 && 0 <= c < 4 ==> #[trigger] state.pieces_left[t][c] == if c < color || (c == color && t < piece_type) {
                            (pieces >> ((t + 21 * c) as u128)) & 1u128 == 0u128
                        } else {
                            true
                        },
                    forall|c: int|
                        0 <= c < 4 ==> #[trigger] state.monomino_placed_last[c] == if c < color {
                            (data >> (c as u128)) & 1u128 == 1u128
                        } else {
                            false
                        },
                decreases 21 - piece_type,
            {
                let k = (piece_type + color * 21) as u128;
                let bit = pieces & (1u128 << k);
                proof {
                    let p = pieces;
                    assert((bit != 0) == ((p >> k) & 1u128 == 1u128) && ((p >> k) & 1u128 == 0u128 || (p >> k) & 1u128 == 1u128)) by (bit_vector)
                        requires bit == p & (1u128 << k), k < 128u128;
                }
                if bit != 0 {
                    let mut row = state.pieces_left[piece_type];
                    row[color] = false;
                    state.pieces_left[piece_type] = row;
                }
                piece_type = piece_type + 1;
            }
            let mbit = data & (1u128 << (color as u128));
            proof {
                let d = data;
                let cc = color as u128;
                assert((mbit != 0) == ((d >> cc) & 1u128 == 1u128)) by (bit_vector)
                    requires mbit == d & (1u128 << cc), cc < 4u128;
            }
            state.monomino_placed_last[color] = mbit != 0;
            color = color + 1;
        }
        let mut c: usize = 0;
        while c < 4
            invariant
                c <= 4,
                entries@.len() == fields(string@).len(),
                forall|k: int| 0 <= k < entries@.len() ==> (#[trigger] entries@[k])@ == fields(string@)[k],
                is_fen(string@),
                state.ply == st0.ply,
                state.skipped == st0.skipped,
                state.start_piece_type == st0.start_piece_type,
                state.hash == 0,
                forall|t: int, cc: int|
                    0 <= t < 21 && 0 <= cc < 4 ==> #[trigger] state.pieces_left[t][cc] == ((pieces >> ((t + 21 * cc) as u128)) & 1u128 == 0u128),
                forall|cc: int|
                    0 <= cc < 4 ==> #[trigger] state.monomino_placed_last[cc] == ((data >> (cc as u128)) & 1u128 == 1u128),
                forall|cc: int|
                    0 <= cc < 4 ==> #[trigger] state.board[cc] == if cc < c {
                        Bitboard(
                            fen_field(string@, 2 + 4 * cc),
                            fen_field(string@, 3 + 4 * cc),
                            fen_field(string@, 4 + 4 * cc),
                            fen_field(string@, 5 + 4 * cc),
                        )
                    } else {
                        Bitboard(0, 0, 0, 0)
                    },
            decreases 4 - c,
        {
            proof {
                assert(parse_u128_spec(fields(string@)[2 + 4 * c]) is Some);
                assert(parse_u128_spec(fields(string@)[3 + 4 * c]) is Some);
                assert(parse_u128_spec(fields(string@)[4 + 4 * c]) is Some);
                assert(parse_u128_spec(fields(string@)[5 + 4 * c]) is Some);
            }
            let w0 = parse_u128(&entries[2 + 4 * c]).unwrap();
            let w1 = parse_u128(&entries[3 + 4 * c]).unwrap();
            let w2 = parse_u128(&entries[4 + 4 * c]).unwrap();
            let w3 = parse_u128(&entries[5 + 4 * c]).unwrap();
            state.board[c] = Bitboard(w0, w1, w2, w3);
            c = c + 1;
        }
        state
    }
}

/// Reading back the FEN of a position gives the position, with its hash reset to 0.
pub proof fn lemma_fen_roundtrip(s: GameState)
    ensures
        is_fen(spaced(fen_numbers(s))),
        forall|r: GameState| #[trigger] from_fen_spec(spaced(fen_numbers(s)), r) ==> r == (GameState { hash: 0, ..s }),
{
    let ns = fen_numbers(s);
    let text = spaced(ns);
    lemma_fields_spaced(ns);
    assert forall|k: int| 0 <= k < 18 implies #[trigger] parse_u128_spec(fields(text)[k]) == Some(ns[k]) by {
        lemma_parse_decimal(ns[k]);
    }
    let idx = s.start_piece_type.index_spec() as u128;
    lemma_fen_data_bits(
        idx,
        s.ply as u128,
        s.skipped as u128,
        flag(s.monomino_placed_last[0]),
        flag(s.monomino_placed_last[1]),
        flag(s.monomino_placed_last[2]),
        flag(s.monomino_placed_last[3]),
    );
    lemma_pieces_bits(s, 84);
    assert forall|r: GameState| #[trigger] from_fen_spec(text, r) implies r == (GameState { hash: 0, ..s }) by {
        assert(r.start_piece_type == s.start_piece_type);
        assert forall|t: int, c: int| 0 <= t < 21 && 0 <= c < 4 implies r.pieces_left[t][c] == s.pieces_left[t][c] by {
            let j = t + 21 * c;
            assert(j % 21 == t && j / 21 == c);
            assert(((fen_pieces_upto(s, 84) >> (j as u128)) & 1u128) == if j < 84 && !s.pieces_left[j % 21][j / 21] { 1u128 } else { 0u128 });
        }
        assert forall|t: int| 0 <= t < 21 implies r.pieces_left[t] =~= s.pieces_left[t] by {
        }
        assert(r.pieces_left =~= s.pieces_left);
        assert(r.monomino_placed_last =~= s.monomino_placed_last);
        assert forall|c: int| 0 <= c < 4 implies r.board[c] == s.board[c] by {
        }
        assert(r.board =~= s.board);
    }
}


proof fn lemma_fen_pieces_same(r: GameState, s: GameState, k: nat)
    requires
        r.pieces_left == s.pieces_left,
    ensures
        fen_pieces_upto(r, k) == fen_pieces_upto(s, k),
    decreases k,
{
    if k > 0 {
        lemma_fen_pieces_same(r, s, (k - 1) as nat);
    }
}

/// Writing the position that a position's FEN describes gives the same FEN again.
pub proof fn lemma_fen_text_roundtrip(s: GameState)
    ensures
        forall|r: GameState|
            #[trigger] from_fen_spec(spaced(fen_numbers(s)), r) ==> spaced(fen_numbers(r)) == spaced(
                fen_numbers(s),
            ),
{
    lemma_fen_roundtrip(s);
    assert forall|r: GameState| #[trigger] from_fen_spec(spaced(fen_numbers(s)), r) implies spaced(
        fen_numbers(r),
    ) == spaced(fen_numbers(s)) by {
        assert(r == (GameState { hash: 0, ..s }));
        lemma_fen_pieces_same(r, s, 84);
        assert(fen_numbers(r) =~= fen_numbers(s));
    }
}

} // verus!

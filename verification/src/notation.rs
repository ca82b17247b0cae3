use vstd::prelude::*;
use crate::action::Action;
use crate::actionlist::ActionList;
use crate::bitboard::Bitboard;
use crate::gamestate::GameState;
use crate::integrity::game_result_spec;
use crate::orientation::{orientation, rotation_spec, flipped_spec};
use crate::piece_type::{PieceType, shape_type_spec};
use crate::text::{
    decimal, parse_u128_spec, push_char, push_chars, push_str, decimal_chars, chars_of, parse_u128,
};

verus! {

/// An integer written in decimal, with a minus sign when it is negative.
pub open spec fn signed_decimal(v: int) -> Seq<char> {
    if v < 0 {
        seq!['-'] + decimal((-v) as nat)
    } else {
        decimal(v as nat)
    }
}

/// `n` copies of `c`.
pub open spec fn repeat(c: char, n: nat) -> Seq<char> {
    Seq::new(n, |i: int| c)
}

/// The text of `code` as `u16::to_string` writes it.
pub open spec fn serialized(code: u16) -> Seq<char> {
    decimal(code as nat)
}

/// The rotation names of the game server.
pub open spec fn rotation_name(r: u8) -> Seq<char> {
    if r == 0 {
        "NONE"@
    } else if r == 1 {
        "RIGHT"@
    } else if r == 2 {
        "MIRROR"@
    } else {
        "LEFT"@
    }
}

/// The color attribute of a piece of color `color % 256`, with its closing quote.
pub open spec fn color_attribute(color: usize) -> Seq<char> {
    let c = color % 256;
    if c == 0 {
        "BLUE\" "@
    } else if c == 1 {
        "YELLOW\" "@
    } else if c == 2 {
        "RED\" "@
    } else {
        "GREEN\" "@
    }
}

pub open spec fn bool_text(b: bool) -> Seq<char> {
    if b {
        "true"@
    } else {
        "false"@
    }
}

/// The move message of action `a` of color `color` for the game server.
pub open spec fn xml_text(a: Action, color: usize) -> Seq<char> {
    if a.is_skip_spec() {
        "<data class=\"sc.plugin2021.SkipMove\"/>"@
    } else {
        let d = a.destination_spec();
        let sh = a.shape_spec() as usize;
        "  <data class=\"sc.plugin2021.SetMove\">\n    <piece color=\""@ + color_attribute(color)
            + "kind=\""@ + shape_type_spec(sh).xml_name_spec() + "\" rotation=\""@
            + rotation_name(rotation_spec(sh)) + "\" isFlipped=\""@ + bool_text(flipped_spec(sh))
            + "\">\n      <position x=\""@ + decimal((d % 21) as nat) + "\" y=\""@ + decimal(
            (d / 21) as nat,
        ) + "\"/>\n    </piece>\n  </data>"@
    }
}

/// The short name of action `a`: `Skip`, or the short name of its piece type, an underscore
/// and its code.
pub open spec fn short_name_text(a: Action) -> Seq<char> {
    if a.is_skip_spec() {
        "Skip"@
    } else {
        shape_type_spec(a.shape_spec() as usize).short_name_spec() + "_"@ + decimal(a.0 as nat)
    }
}

/// The description of action `a`: `Skip`, or its piece type, destination, column, row, shape
/// and code.
pub open spec fn action_text(a: Action) -> Seq<char> {
    if a.is_skip_spec() {
        "Skip"@
    } else {
        let d = a.destination_spec();
        let sh = a.shape_spec();
        "Set "@ + shape_type_spec(sh as usize).full_name_spec() + " to "@ + decimal(d as nat)
            + " (X="@ + decimal((d % 21) as nat) + " Y="@ + decimal((d / 21) as nat) + " S="@
            + decimal(sh as nat) + " V="@ + decimal(a.0 as nat) + ")"@
    }
}

/// The picture of field `x + 21 * y` of `b`: an orange square for a set field on the board, a
/// red one for a set field outside, a dot and a space for a free field.
pub open spec fn cell_text(b: Bitboard, x: int, y: int) -> Seq<char> {
    if b.has(x + y * 21) {
        if x < 20 && y < 20 {
            seq!['\u{1f7e7}']
        } else {
            seq!['\u{1f7e5}']
        }
    } else {
        ". "@
    }
}

/// The first `n` fields of row `y` of `b`.
pub open spec fn row_text(b: Bitboard, y: int, n: nat) -> Seq<char>
    decreases n,
{
    if n == 0 {
        Seq::<char>::empty()
    } else {
        row_text(b, y, (n - 1) as nat) + cell_text(b, n - 1, y)
    }
}

/// The first `n` rows of `b`, each with its number and a line break.
pub open spec fn rows_text(b: Bitboard, n: nat) -> Seq<char>
    decreases n,
{
    if n == 0 {
        Seq::<char>::empty()
    } else {
        rows_text(b, (n - 1) as nat) + row_text(b, n - 1, 21) + decimal((n - 1) as nat) + seq![
            '\n',
        ]
    }
}

/// The picture of the 21 rows of 21 fields of `b`, under a line of column numbers.
pub open spec fn board_text(b: Bitboard) -> Seq<char> {
    "0 1 2 3 4 5 6 7 8 9 10        15    19\n"@ + rows_text(b, 21)
}

/// The short names of the actions, separated by a comma and a space.
pub open spec fn list_text(acts: Seq<Action>) -> Seq<char>
    decreases acts.len(),
{
    if acts.len() == 0 {
        Seq::empty()
    } else if acts.len() == 1 {
        short_name_text(acts[0])
    } else {
        list_text(acts.drop_last()) + ", "@ + short_name_text(acts.last())
    }
}

/// The description of action `a` followed by the picture of its piece.
pub open spec fn visualize_text(a: Action) -> Seq<char> {
    let board = if a.is_skip_spec() {
        Bitboard(0, 0, 0, 0)
    } else {
        Bitboard::with_piece_spec(a.destination_spec() as u16, a.shape_spec() as usize)
    };
    action_text(a) + seq!['\n'] + board_text(board)
}

/// The number of bytes of `c` in UTF-8.
pub open spec fn char_bytes(c: char) -> nat {
    if (c as u32) < 0x80 {
        1
    } else if (c as u32) < 0x800 {
        2
    } else if (c as u32) < 0x10000 {
        3
    } else {
        4
    }
}

/// The number of bytes of `s` in UTF-8.
pub open spec fn utf8_len(s: Seq<char>) -> nat
    decreases s.len(),
{
    if s.len() == 0 {
        0
    } else {
        utf8_len(s.drop_last()) + char_bytes(s.last())
    }
}

/// The colored square of color `c`.
pub open spec fn color_square(c: int) -> char {
    if c == 0 {
        '\u{1f7e6}'
    } else if c == 1 {
        '\u{1f7e8}'
    } else if c == 2 {
        '\u{1f7e5}'
    } else {
        '\u{1f7e9}'
    }
}

/// The information line of a position: the color to move, the ply and the score.
pub open spec fn info_text(s: GameState) -> Seq<char> {
    seq!['\u{2551}', ' ', color_square((s.ply % 4) as int)] + " Turn: "@ + decimal(s.ply as nat)
        + " Score: "@ + signed_decimal(game_result_spec(s))
}

/// The picture of field `i` of a position, with the fields of `board` marked where no color is.
pub open spec fn display_cell(s: GameState, board: Bitboard, i: int) -> Seq<char> {
    if s.board[0].has(i) {
        seq!['\u{1f7e6}']
    } else if s.board[1].has(i) {
        seq!['\u{1f7e8}']
    } else if s.board[2].has(i) {
        seq!['\u{1f7e5}']
    } else if s.board[3].has(i) {
        seq!['\u{1f7e9}']
    } else if board.has(i) {
        seq!['\u{1f7e7}']
    } else {
        seq!['\u{25aa}', '\u{fe0f}']
    }
}

/// The first `n` fields of row `y` of a position.
pub open spec fn display_row(s: GameState, board: Bitboard, y: int, n: nat) -> Seq<char>
    decreases n,
{
    if n == 0 {
        Seq::<char>::empty()
    } else {
        display_row(s, board, y, (n - 1) as nat) + display_cell(s, board, (n - 1) + y * 21)
    }
}

/// The first `n` rows of a position, each on a new line between two walls.
pub open spec fn display_rows(s: GameState, board: Bitboard, n: nat) -> Seq<char>
    decreases n,
{
    if n == 0 {
        Seq::<char>::empty()
    } else {
        display_rows(s, board, (n - 1) as nat) + seq!['\n', '\u{2551}'] + display_row(
            s,
            board,
            n - 1,
            20,
        ) + seq!['\u{2551}']
    }
}

/// The number of spaces that fill the information line up to 45 bytes.
pub open spec fn info_padding(s: GameState) -> nat {
    let n = utf8_len(info_text(s));
    if n < 45 {
        (45 - n) as nat
    } else {
        0
    }
}

/// The picture of a position in a frame: the information line, then the 20 rows of the board.
pub open spec fn display_text(s: GameState, board: Bitboard) -> Seq<char> {
    seq!['\u{2554}'] + repeat('\u{2550}', 40) + seq!['\u{2557}', '\n'] + info_text(s) + repeat(
        ' ',
        info_padding(s),
    ) + seq!['\u{2551}', '\n', '\u{2560}'] + repeat('\u{2550}', 40) + seq!['\u{2563}']
        + display_rows(s, board, 20) + seq!['\n', '\u{255a}'] + repeat('\u{2550}', 40) + seq![
        '\u{255d}',
    ]
}

/// Appends `n` copies of `c`.
fn push_repeat(s: &mut String, c: char, n: usize)
    ensures
        final(s)@ == old(s)@ + repeat(c, n as nat),
{
    let ghost start = s@;
    let mut i: usize = 0;
    while i < n
        invariant
            i <= n,
            s@ == start + repeat(c, i as nat),
        decreases n - i,
    {
        push_char(s, c);
        proof {
            assert(repeat(c, (i + 1) as nat) =~= repeat(c, i as nat).push(c));
            assert(start + repeat(c, (i + 1) as nat) =~= (start + repeat(c, i as nat)).push(c));
        }
        i = i + 1;
    }
}

/// Appends `v` in decimal, with a minus sign when it is negative.
fn push_signed(s: &mut String, v: i16)
    ensures
        final(s)@ == old(s)@ + signed_decimal(v as int),
{
    if v < 0 {
        push_char(s, '-');
        let m: i32 = -(v as i32);
        push_chars(s, &decimal_chars(m as u128));
        proof {
            assert(old(s)@.push('-') + decimal((-v) as nat) =~= old(s)@ + (seq!['-'] + decimal(
                (-v) as nat,
            )));
        }
    } else {
        push_chars(s, &decimal_chars(v as u128));
    }
}

/// The number of bytes of the characters in UTF-8.
fn utf8_length(chars: &Vec<char>) -> (r: usize)
    requires
        chars@.len() < 0x1000,
    ensures
        r == utf8_len(chars@),
{
    let mut n: usize = 0;
    let mut i: usize = 0;
    while i < chars.len()
        invariant
            i <= chars@.len(),
            chars@.len() < 0x1000,
            n == utf8_len(chars@.subrange(0, i as int)),
            n <= 4 * i,
        decreases chars@.len() - i,
    {
        let c = chars[i];
        let code = c as u32;
        let b: usize = if code < 0x80 {
            1
        } else if code < 0x800 {
            2
        } else if code < 0x10000 {
            3
        } else {
            4
        };
        proof {
            let sub = chars@.subrange(0, i + 1);
            assert(sub.drop_last() =~= chars@.subrange(0, i as int));
            assert(sub.last() == c);
        }
        n = n + b;
        i = i + 1;
    }
    proof {
        assert(chars@.subrange(0, chars@.len() as int) =~= chars@);
    }
    n
}

impl Action {
    /// The code of the action in decimal.
    pub fn serialize(self) -> (r: String)
        ensures
            r@ == serialized(self.0),
    {
        let mut s = String::new();
        push_chars(&mut s, &decimal_chars(self.0 as u128));
        s
    }

    /// The action whose code `string` holds, read as `u16::from_str` reads it.
    pub fn deserialize(string: String) -> (r: Action)
        requires
            parse_u128_spec(string@) matches Some(v) && v <= 65535,
        ensures
            r.0 == parse_u128_spec(string@)->0,
    {
        let chars = chars_of(string.as_str());
        let v = parse_u128(&chars).unwrap();
        Action(v as u16)
    }

    /// The move message of the action of color `color` for the game server (see `xml_text`).
    pub fn to_xml(self, color: usize) -> (r: String)
        requires
            !self.is_skip_spec() ==> self.shape_spec() < 91,
        ensures
            r@ == xml_text(self, color),
    {
        if self.is_skip() {
            return String::from_str("<data class=\"sc.plugin2021.SkipMove\"/>");
        }
        let destination = self.get_destination();
        let shape = self.get_shape() as usize;
        let piece_type = PieceType::from_shape(shape);
        let (r, flipped) = orientation(shape);
        let x = destination % 21;
        let y = (destination - x) / 21;
        let mut xml = String::from_str("  <data class=\"sc.plugin2021.SetMove\">\n    <piece color=\"");
        let c = color % 256;
        if c == 0 {
            push_str(&mut xml, "BLUE\" ");
        } else if c == 1 {
            push_str(&mut xml, "YELLOW\" ");
        } else if c == 2 {
            push_str(&mut xml, "RED\" ");
        } else {
            push_str(&mut xml, "GREEN\" ");
        }
        push_str(&mut xml, "kind=\"");
        push_str(&mut xml, piece_type.to_xml_name().as_str());
        push_str(&mut xml, "\" rotation=\"");
        if r == 0 {
            push_str(&mut xml, "NONE");
        } else if r == 1 {
            push_str(&mut xml, "RIGHT");
        } else if r == 2 {
            push_str(&mut xml, "MIRROR");
        } else {
            push_str(&mut xml, "LEFT");
        }
        push_str(&mut xml, "\" isFlipped=\"");
        if flipped {
            push_str(&mut xml, "true");
        } else {
            push_str(&mut xml, "false");
        }
        push_str(&mut xml, "\">\n      <position x=\"");
        push_chars(&mut xml, &decimal_chars(x as u128));
        push_str(&mut xml, "\" y=\"");
        push_chars(&mut xml, &decimal_chars(y as u128));
        push_str(&mut xml, "\"/>\n    </piece>\n  </data>");
        proof {
            assert(y == destination / 21);
        }
        xml
    }

    /// The short name of the action (see `short_name_text`).
    pub fn to_short_name(self) -> (r: String)
        requires
            !self.is_skip_spec() ==> self.shape_spec() < 91,
        ensures
            r@ == short_name_text(self),
    {
        if self.is_skip() {
            return String::from_str("Skip");
        }
        let shape = self.get_shape() as usize;
        let piece_type = PieceType::from_shape(shape);
        let mut s = piece_type.to_short_name();
        push_str(&mut s, "_");
        push_chars(&mut s, &decimal_chars(self.0 as u128));
        s
    }

    /// The description of the action (see `action_text`).
    pub fn to_string(self) -> (r: String)
        requires
            !self.is_skip_spec() ==> self.shape_spec() < 91,
        ensures
            r@ == action_text(self),
    {
        if self.is_skip() {
            return String::from_str("Skip");
        }
        let destination = self.get_destination();
        let shape = self.get_shape() as usize;
        let piece_type = PieceType::from_shape(shape);
        let x = destination % 21;
        let y = (destination - x) / 21;
        let mut s = String::from_str("Set ");
        push_str(&mut s, piece_type.to_full_name().as_str());
        push_str(&mut s, " to ");
        push_chars(&mut s, &decimal_chars(destination as u128));
        push_str(&mut s, " (X=");
        push_chars(&mut s, &decimal_chars(x as u128));
        push_str(&mut s, " Y=");
        push_chars(&mut s, &decimal_chars(y as u128));
        push_str(&mut s, " S=");
        push_chars(&mut s, &decimal_chars(shape as u128));
        push_str(&mut s, " V=");
        push_chars(&mut s, &decimal_chars(self.0 as u128));
        push_str(&mut s, ")");
        proof {
            assert(y == destination / 21);
        }
        s
    }

    /// The description of the action followed by the picture of its piece.
    pub fn visualize(self) -> (r: String)
        requires
            !self.is_skip_spec() ==> self.shape_spec() < 91,
        ensures
            r@ == visualize_text(self),
    {
        let board = if self.is_set() {
            let destination = self.get_destination();
            let shape = self.get_shape();
            Bitboard::with_piece(destination, shape as usize)
        } else {
            Bitboard::empty()
        };
        let mut s = self.to_string();
        push_char(&mut s, '\n');
        push_str(&mut s, board.to_string().as_str());
        s
    }
}

impl ActionList {
    /// The short names of the actions in the list, separated by a comma and a space.
    pub fn to_string(&self) -> (r: String)
        requires
            forall|k: int|
                0 <= k < self@.len() ==> !#[trigger] self@[k].is_skip_spec() ==> self@[k].shape_spec()
                    < 91,
        ensures
            r@ == list_text(self@),
    {
        let mut s = String::new();
        let n = self.size();
        let mut i: usize = 0;
        while i < n
            invariant
                n == self@.len(),
                i <= n,
                s@ == list_text(self@.subrange(0, i as int)),
                forall|k: int|
                    0 <= k < self@.len() ==> !#[trigger] self@[k].is_skip_spec()
                        ==> self@[k].shape_spec() < 91,
            decreases n - i,
        {
            let a = self.get(i);
            proof {
                let next = self@.subrange(0, i + 1);
                assert(next.drop_last() =~= self@.subrange(0, i as int));
                assert(next.last() == self@[i as int]);
            }
            if i != 0 {
                push_str(&mut s, ", ");
            } else {
                assert(self@.subrange(0, 1) =~= seq![a]);
            }
            push_str(&mut s, a.to_short_name().as_str());
            i = i + 1;
        }
        proof {
            assert(self@.subrange(0, n as int) =~= self@);
        }
        s
    }
}

/// Reading back the text of an action gives the action.
pub proof fn lemma_serialize_roundtrip(a: Action)
    ensures
        parse_u128_spec(serialized(a.0)) == Some(a.0 as u128),
{
    crate::fen::lemma_parse_decimal(a.0 as u128);
}

impl Bitboard {
    /// The picture of the board (see `board_text`).
    pub fn to_string(&self) -> (r: String)
        ensures
            r@ == board_text(*self),
    {
        let mut s = String::from_str("0 1 2 3 4 5 6 7 8 9 10        15    19\n");
        let ghost header = s@;
        let mut y: u16 = 0;
        while y < 21
            invariant
                y <= 21,
                s@ == header + rows_text(*self, y as nat),
            decreases 21 - y,
        {
            let mut x: u16 = 0;
            let ghost before = s@;
            while x < 21
                invariant
                    x <= 21,
                    y < 21,
                    s@ == before + row_text(*self, y as int, x as nat),
                decreases 21 - x,
            {
                let ghost prev = s@;
                if self.check_bit(x + y * 21) {
                    if x < 20 && y < 20 {
                        push_char(&mut s, '\u{1f7e7}');
                    } else {
                        push_char(&mut s, '\u{1f7e5}');
                    }
                } else {
                    push_str(&mut s, ". ");
                }
                proof {
                    assert(s@ == prev + cell_text(*self, x as int, y as int));
                    assert(before + row_text(*self, y as int, (x + 1) as nat) =~= prev + cell_text(
                        *self,
                        x as int,
                        y as int,
                    ));
                }
                x = x + 1;
            }
            push_chars(&mut s, &decimal_chars(y as u128));
            push_char(&mut s, '\n');
            proof {
                assert(header + rows_text(*self, (y + 1) as nat) =~= before + row_text(
                    *self,
                    y as int,
                    21,
                ) + decimal(y as nat) + seq!['\n']);
            }
            y = y + 1;
        }
        s
    }
}

impl GameState {
    /// The picture of the position, with the fields of `board` marked where no color is (see
    /// `display_text`).
    pub fn display_board(&self, board: Bitboard) -> (r: String)
        ensures
            r@ == display_text(*self, board),
    {
        let mut string = String::new();
        push_char(&mut string, '\u{2554}');
        push_repeat(&mut string, '\u{2550}', 40);
        push_str(&mut string, "\u{2557}\n");
        let mut info = String::new();
        push_char(&mut info, '\u{2551}');
        push_char(&mut info, ' ');
        let color = self.get_current_color();
        if color == 0 {
            push_char(&mut info, '\u{1f7e6}');
        } else if color == 1 {
            push_char(&mut info, '\u{1f7e8}');
        } else if color == 2 {
            push_char(&mut info, '\u{1f7e5}');
        } else {
            push_char(&mut info, '\u{1f7e9}');
        }
        push_str(&mut info, " Turn: ");
        push_chars(&mut info, &decimal_chars(self.ply as u128));
        push_str(&mut info, " Score: ");
        push_signed(&mut info, self.game_result());
        let info_chars = chars_of(info.as_str());
        proof {
            reveal_strlit("\u{2557}\n");
            reveal_strlit(" Turn: ");
            reveal_strlit(" Score: ");
            crate::fen::lemma_decimal_digits(self.ply as nat);
            assert(info@ =~= info_text(*self));
            lemma_decimal_len(self.ply as nat);
            lemma_signed_len(game_result_spec(*self));
            assert(info@.len() < 0x1000);
        }
        let len = utf8_length(&info_chars);
        push_chars(&mut string, &info_chars);
        if len < 45 {
            push_repeat(&mut string, ' ', 45 - len);
        } else {
            proof {
                assert(repeat(' ', 0) =~= Seq::<char>::empty());
                assert(string@ + repeat(' ', 0) =~= string@);
            }
        }
        push_str(&mut string, "\u{2551}\n\u{2560}");
        push_repeat(&mut string, '\u{2550}', 40);
        push_char(&mut string, '\u{2563}');
        let ghost header = string@;
        let mut y: u16 = 0;
        while y < 20
            invariant
                y <= 20,
                string@ == header + display_rows(*self, board, y as nat),
            decreases 20 - y,
        {
            let ghost before = string@;
            push_str(&mut string, "\n\u{2551}");
            proof {
                reveal_strlit("\n\u{2551}");
            }
            let ghost row_start = string@;
            let mut x: u16 = 0;
            while x < 20
                invariant
                    x <= 20,
                    y < 20,
                    string@ == row_start + display_row(*self, board, y as int, x as nat),
                decreases 20 - x,
            {
                let field = x + y * 21;
                let ghost prev = string@;
                if self.board[0].check_bit(field) {
                    push_char(&mut string, '\u{1f7e6}');
                } else if self.board[1].check_bit(field) {
                    push_char(&mut string, '\u{1f7e8}');
                } else if self.board[2].check_bit(field) {
                    push_char(&mut string, '\u{1f7e5}');
                } else if self.board[3].check_bit(field) {
                    push_char(&mut string, '\u{1f7e9}');
                } else if board.check_bit(field) {
                    push_char(&mut string, '\u{1f7e7}');
                } else {
                    push_char(&mut string, '\u{25aa}');
                    push_char(&mut string, '\u{fe0f}');
                }
                proof {
                    assert(string@ =~= prev + display_cell(*self, board, field as int));
                    assert(row_start + display_row(*self, board, y as int, (x + 1) as nat) =~= prev
                        + display_cell(*self, board, field as int));
                }
                x = x + 1;
            }
            push_char(&mut string, '\u{2551}');
            proof {
                assert(header + display_rows(*self, board, (y + 1) as nat) =~= before + seq![
                    '\n',
                    '\u{2551}',
                ] + display_row(*self, board, y as int, 20) + seq!['\u{2551}']);
            }
            y = y + 1;
        }
        push_str(&mut string, "\n\u{255a}");
        push_repeat(&mut string, '\u{2550}', 40);
        push_char(&mut string, '\u{255d}');
        proof {
            reveal_strlit("\u{2551}\n\u{2560}");
            reveal_strlit("\n\u{255a}");
            assert(string@ =~= display_text(*self, board));
        }
        string
    }

    /// The picture of the position.
    pub fn to_string(&self) -> (r: String)
        ensures
            r@ == display_text(*self, Bitboard(0, 0, 0, 0)),
    {
        self.display_board(Bitboard::empty())
    }
}

proof fn lemma_decimal_len(n: nat)
    requires
        n < 0x10000,
    ensures
        decimal(n).len() <= 5,
{
    assert(crate::text::pow10(5) == 100000) by {
        reveal_with_fuel(crate::text::pow10, 6);
    }
    lemma_decimal_len_pow(n, 5);
}

proof fn lemma_decimal_len_pow(n: nat, k: nat)
    requires
        1 <= k,
        n < crate::text::pow10(k),
    ensures
        decimal(n).len() <= k,
    decreases k,
{
    if n >= 10 {
        if k == 1 {
            assert(crate::text::pow10(1) == 10) by {
                reveal_with_fuel(crate::text::pow10, 2);
            }
        } else {
            assert(crate::text::pow10(k) == 10 * crate::text::pow10((k - 1) as nat));
            assert(n / 10 < crate::text::pow10((k - 1) as nat));
            lemma_decimal_len_pow(n / 10, (k - 1) as nat);
        }
    }
}

proof fn lemma_signed_len(v: int)
    requires
        -0x10000 < v < 0x10000,
    ensures
        signed_decimal(v).len() <= 6,
{
    assert(crate::text::pow10(5) == 100000) by {
        reveal_with_fuel(crate::text::pow10, 6);
    }
    if v < 0 {
        lemma_decimal_len((-v) as nat);
    } else {
        lemma_decimal_len(v as nat);
    }
}

} // verus!

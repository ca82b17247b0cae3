use vstd::prelude::*;
use crate::action::{Action, SKIP_CODE};
use crate::actionlist::ActionList;
use crate::bitboard::{Bitboard, is_valid_field, is_start_field, valid_fields, start_fields};
use crate::hashing::{
    ply_hash, shape_hash, destination_hash, ply_hash_spec, shape_hash_spec, destination_hash_spec,
};
use crate::movegen::{
    shortcuts_ok, moves_added, bb_destination, typed_moves, type_in, lemma_typed_step, gen_shapes,
    lemma_gen_types, append_shape, domino, i_tromino, l_tromino, i_tetromino, l_tetromino, t_tetromino, o_tetromino, z_tetromino, f_pentomino, i_pentomino, l_pentomino, n_pentomino, p_pentomino, t_pentomino, u_pentomino, v_pentomino, w_pentomino, x_pentomino, y_pentomino, z_pentomino,
};
use crate::piece_type::{PieceType, shape_type_spec};
use crate::shapes::shape_destination;

verus! {

broadcast use vstd::array::group_array_axioms;

/// A position of a game: the boards of the four colors, the pieces each color has left, and
/// what the scoring and the move rules need to know of the moves so far.
#[derive(Clone, Copy, Debug, PartialEq, Eq)]
pub struct GameState {
    /// The number of moves made so far; color `ply % 4` moves next.
    pub ply: u8,
    /// The fields of each color (blue, yellow, red, green).
    pub board: [Bitboard; 4],
    /// Whether each piece type (first index) is still available to each color.
    pub pieces_left: [[bool; 4]; 21],
    /// Whether the last piece a color placed was the monomino.
    pub monomino_placed_last: [bool; 4],
    /// Bit `c` is set once color `c` has skipped; every skip also keeps a copy of the earlier
    /// bits four places higher.
    pub skipped: u64,
    /// The piece type every color must place in the first round.
    pub start_piece_type: PieceType,
    /// The hash of the position.
    pub hash: u64,
}

/// Bit `color` of the skip record is set.
pub open spec fn skip_bit(skipped: u64, color: int) -> bool {
    (skipped >> (color as u64)) & 1u64 == 1u64
}

/// Some color has a piece on field `i`.
pub open spec fn occupied_spec(s: GameState, i: int) -> bool {
    s.board[0].has(i) || s.board[1].has(i) || s.board[2].has(i) || s.board[3].has(i)
}

/// Field `i` may be covered by a new piece of color `c`: it is on the board, free, and not next
/// to a field of the color.
pub open spec fn legal_field(s: GameState, c: int, i: int) -> bool {
    let own = s.board[c];
    is_valid_field(i) && !occupied_spec(s, i) && !(own.has(i - 1) || own.has(i + 1) || own.has(
        i - 21,
    ) || own.has(i + 21))
}

/// Field `i` is one at which a new piece of color `c` may touch the color's pieces corner to
/// corner; in the first round, a free corner of the board.
pub open spec fn placement_field(s: GameState, c: int, i: int) -> bool {
    let own = s.board[c];
    if s.ply > 3 {
        legal_field(s, c, i) && (own.has(i - 22) || own.has(i + 22) || own.has(i - 20) || own.has(
            i + 20,
        ))
    } else {
        is_start_field(i) && !(occupied_spec(s, i) && !own.has(i))
    }
}

/// Placing shape `shape` at field `d` is a legal move of the color to move.
pub open spec fn legal_move(s: GameState, d: int, shape: int) -> bool {
    let c = s.ply % 4;
    let t = shape_type_spec(shape as usize);
    &&& 0 <= shape < 91
    &&& s.pieces_left[t.index_spec()][c as int]
    &&& (s.ply < 4 ==> t == s.start_piece_type)
    &&& shape_destination(
        shape as usize,
        |i: int| legal_field(s, c as int, i),
        |i: int| placement_field(s, c as int, i),
        d,
    )
}

/// `t` is `s` after action `a`: the ply advances, the hash changes by the keys of the ply and,
/// for a set action, of the shape and destination; a skip records the color in the skip bits;
/// a set action places the piece on the color's board and uses up its piece type.
pub open spec fn action_done(s: GameState, t: GameState, a: Action) -> bool {
    let c = s.ply % 4;
    &&& t.ply == s.ply + 1
    &&& t.start_piece_type == s.start_piece_type
    &&& if a.is_skip_spec() {
        &&& t.skipped == ((s.skipped << 4u64) | (s.skipped & 15u64) | (1u64 << (c as u64)))
        &&& t.board == s.board
        &&& t.pieces_left == s.pieces_left
        &&& t.monomino_placed_last == s.monomino_placed_last
        &&& t.hash == s.hash ^ ply_hash_spec(s.ply)
    } else {
        let shape = a.shape_spec() as usize;
        let d = a.destination_spec() as u16;
        let ty = shape_type_spec(shape).index_spec();
        &&& t.skipped == s.skipped
        &&& forall|k: int|
            0 <= k < 4 ==> #[trigger] t.board[k] == if k == c {
                s.board[k].xor_spec(Bitboard::with_piece_spec(d, shape))
            } else {
                s.board[k]
            }
        &&& forall|k: int, j: int|
            0 <= k < 21 && 0 <= j < 4 ==> #[trigger] t.pieces_left[k][j] == if k == ty && j == c {
                false
            } else {
                s.pieces_left[k][j]
            }
        &&& forall|k: int|
            0 <= k < 4 ==> #[trigger] t.monomino_placed_last[k] == if k == c {
                shape_type_spec(shape) == PieceType::Monomino
            } else {
                s.monomino_placed_last[k]
            }
        &&& t.hash == s.hash ^ ply_hash_spec(s.ply) ^ shape_hash_spec(shape as u16, c as u8)
            ^ destination_hash_spec(d, c as u8)
    }
}

/// `t` is `s` with action `a` taken back: the ply goes back, the hash changes by the same keys,
/// a skip drops the newest skip record, a set action removes the piece from the board and makes
/// its piece type available again.
pub open spec fn action_undone(s: GameState, t: GameState, a: Action) -> bool {
    let p = (s.ply - 1) as u8;
    let c = p % 4;
    &&& t.ply == p
    &&& t.start_piece_type == s.start_piece_type
    &&& t.monomino_placed_last == s.monomino_placed_last
    &&& if a.is_skip_spec() {
        &&& t.skipped == s.skipped >> 4u64
        &&& t.board == s.board
        &&& t.pieces_left == s.pieces_left
        &&& t.hash == s.hash ^ ply_hash_spec(p)
    } else {
        let shape = a.shape_spec() as usize;
        let d = a.destination_spec() as u16;
        let ty = shape_type_spec(shape).index_spec();
        &&& t.skipped == s.skipped
        &&& forall|k: int|
            0 <= k < 4 ==> #[trigger] t.board[k] == if k == c {
                s.board[k].xor_spec(Bitboard::with_piece_spec(d, shape))
            } else {
                s.board[k]
            }
        &&& forall|k: int, j: int|
            0 <= k < 21 && 0 <= j < 4 ==> #[trigger] t.pieces_left[k][j] == if k == ty && j == c {
                true
            } else {
                s.pieces_left[k][j]
            }
        &&& t.hash == s.hash ^ ply_hash_spec(p) ^ shape_hash_spec(shape as u16, c as u8)
            ^ destination_hash_spec(d, c as u8)
    }
}

pub proof fn lemma_skip_bits(s: u64, c: u64, ply: u8)
    by (bit_vector)
    requires
        c < 4,
    ensures
        s < 0x1000000000000000u64 ==> (((s << 4u64) | (s & 15u64) | (1u64 << c)) >> 4u64) == s,
        (ply & 3u8) == ply % 4,
{
}

pub proof fn lemma_xor_cancel(h: u64, a: u64, b: u64, c: u64)
    by (bit_vector)
    ensures
        (h ^ a) ^ a == h,
        (h ^ a ^ b ^ c) ^ a ^ b ^ c == h,
{
}

pub proof fn lemma_xor_cancel_u128(x: u128, y: u128)
    by (bit_vector)
    ensures
        (x ^ y) ^ y == x,
{
}

/// Taking back an action just made restores the position, provided the skip record had room
/// for the new entry and, for a set action, the piece was available and the color's last-piece
/// flag already matched the new piece (taking back does not restore that flag).
pub proof fn lemma_undo_after_do(s: GameState, t: GameState, u: GameState, a: Action)
    requires
        action_done(s, t, a),
        action_undone(t, u, a),
        a.is_skip_spec() ==> s.skipped < 0x1000000000000000u64,
        !a.is_skip_spec() ==> s.pieces_left[shape_type_spec(a.shape_spec() as usize).index_spec()][(
        s.ply % 4) as int],
        !a.is_skip_spec() ==> s.monomino_placed_last[(s.ply % 4) as int] == (shape_type_spec(
            a.shape_spec() as usize,
        ) == PieceType::Monomino),
    ensures
        u == s,
{
    let c = s.ply % 4;
    lemma_skip_bits(s.skipped, c as u64, 0);
    assert(u.ply == s.ply);
    if a.is_skip_spec() {
        lemma_xor_cancel(s.hash, ply_hash_spec(s.ply), 0, 0);
    } else {
        let shape = a.shape_spec() as usize;
        let d = a.destination_spec() as u16;
        let w = Bitboard::with_piece_spec(d, shape);
        lemma_xor_cancel(
            s.hash,
            ply_hash_spec(s.ply),
            shape_hash_spec(shape as u16, c as u8),
            destination_hash_spec(d, c as u8),
        );
        assert forall|k: int| 0 <= k < 4 implies u.board[k] == s.board[k] by {
            if k == c {
                lemma_xor_cancel_u128(s.board[k].0, w.0);
                lemma_xor_cancel_u128(s.board[k].1, w.1);
                lemma_xor_cancel_u128(s.board[k].2, w.2);
                lemma_xor_cancel_u128(s.board[k].3, w.3);
            }
        }
        assert(u.board =~= s.board);
        assert forall|k: int| 0 <= k < 21 implies u.pieces_left[k] =~= s.pieces_left[k] by {
            assert forall|j: int| 0 <= j < 4 implies u.pieces_left[k][j] == s.pieces_left[k][j] by {
            }
        }
        assert(u.pieces_left =~= s.pieces_left);
        assert(t.monomino_placed_last =~= s.monomino_placed_last);
    }
}

/// `acts` is what move generation gives for `s`: a lone skip when the color to move has
/// skipped before or has no legal move; otherwise every legal move of the color, each once,
/// and nothing else.
pub open spec fn possible_actions(s: GameState, acts: Seq<Action>) -> bool {
    let c = s.ply % 4;
    if skip_bit(s.skipped, c as int) || !(exists|d: int, sh: int| legal_move(s, d, sh)) {
        acts == seq![Action(SKIP_CODE)]
    } else {
        &&& acts.len() > 0
        &&& forall|k: int|
            0 <= k < acts.len() ==> legal_move(
                s,
                #[trigger] acts[k].destination_spec(),
                acts[k].shape_spec(),
            )
        &&& forall|d: int, sh: int|
            #[trigger] legal_move(s, d, sh) ==> acts.contains(Action((d * 128 + sh) as u16))
        &&& forall|k1: int, k2: int|
            0 <= k1 < k2 < acts.len() ==> #[trigger] acts[k1] != #[trigger] acts[k2]
    }
}

/// The actions of the list whose shape is of type `t`, in order.
pub open spec fn of_type(acts: Seq<Action>, t: PieceType) -> Seq<Action> {
    acts.filter(|a: Action| shape_type_spec(a.shape_spec() as usize) == t)
}

proof fn lemma_filter_step(s: Seq<Action>, i: int, t: PieceType)
    requires
        0 <= i < s.len(),
    ensures
        of_type(s.subrange(0, i + 1), t) == if shape_type_spec(s[i].shape_spec() as usize) == t {
            of_type(s.subrange(0, i), t).push(s[i])
        } else {
            of_type(s.subrange(0, i), t)
        },
{
    reveal(Seq::filter);
    assert(s.subrange(0, i + 1).drop_last() =~= s.subrange(0, i));
}

proof fn lemma_filter_distinct(s: Seq<Action>, t: PieceType)
    requires
        forall|k1: int, k2: int| 0 <= k1 < k2 < s.len() ==> #[trigger] s[k1] != #[trigger] s[k2],
    ensures
        forall|k1: int, k2: int|
            0 <= k1 < k2 < of_type(s, t).len() ==> #[trigger] of_type(s, t)[k1]
                != #[trigger] of_type(s, t)[k2],
    decreases s.len(),
{
    broadcast use vstd::seq_lib::group_filter_ensures;
    reveal(Seq::filter);
    if s.len() > 0 {
        let d = s.drop_last();
        lemma_filter_distinct(d, t);
        let f = of_type(d, t);
        if shape_type_spec(s.last().shape_spec() as usize) == t {
            assert(of_type(s, t) == f.push(s.last()));
            if f.contains(s.last()) {
                d.lemma_filter_contains_rev(|a: Action| shape_type_spec(a.shape_spec() as usize) == t, s.last());
                let j = choose|j: int| 0 <= j < d.len() && d[j] == s.last();
                assert(s[j] == s[s.len() - 1]);
            }
            assert forall|k1: int, k2: int|
                0 <= k1 < k2 < of_type(s, t).len() implies #[trigger] of_type(s, t)[k1]
                    != #[trigger] of_type(s, t)[k2] by {
                if k2 == f.len() {
                    assert(f.contains(f[k1]));
                }
            }
        }
    }
}

impl Default for GameState {
    /// The empty board before the first move, with the L-pentomino as start piece type.
    fn default() -> (r: Self)
        ensures
            r.ply == 0,
            forall|c: int| 0 <= c < 4 ==> #[trigger] r.board[c] == Bitboard(0, 0, 0, 0),
            forall|t: int, c: int| 0 <= t < 21 && 0 <= c < 4 ==> #[trigger] r.pieces_left[t][c],
            forall|c: int| 0 <= c < 4 ==> !#[trigger] r.monomino_placed_last[c],
            r.skipped == 0,
            r.start_piece_type == PieceType::LPentomino,
            r.hash == 0,
    {
        GameState::with_start_piece_type(PieceType::LPentomino)
    }
}

impl GameState {
    /// The empty board before the first move, with the given start piece type.
    pub fn with_start_piece_type(start_piece_type: PieceType) -> (r: GameState)
        ensures
            r.ply == 0,
            forall|c: int| 0 <= c < 4 ==> #[trigger] r.board[c] == Bitboard(0, 0, 0, 0),
            forall|t: int, c: int| 0 <= t < 21 && 0 <= c < 4 ==> #[trigger] r.pieces_left[t][c],
            forall|c: int| 0 <= c < 4 ==> !#[trigger] r.monomino_placed_last[c],
            r.skipped == 0,
            r.start_piece_type == start_piece_type,
            r.hash == 0,
    {
        let e = Bitboard::empty();
        let row = [true, true, true, true];
        GameState {
            ply: 0,
            board: [e, e, e, e],
            pieces_left: [row, row, row, row, row, row, row, row, row, row, row, row, row, row, row, row, row, row, row, row, row],
            monomino_placed_last: [false, false, false, false],
            skipped: 0,
            start_piece_type,
            hash: 0,
        }
    }

    /// The empty board before the first move, with a start pentomino drawn at random.
    pub fn random() -> (r: GameState)
        ensures
            r.ply == 0,
            forall|c: int| 0 <= c < 4 ==> #[trigger] r.board[c] == Bitboard(0, 0, 0, 0),
            forall|t: int, c: int| 0 <= t < 21 && 0 <= c < 4 ==> #[trigger] r.pieces_left[t][c],
            forall|c: int| 0 <= c < 4 ==> !#[trigger] r.monomino_placed_last[c],
            r.skipped == 0,
            exists|i: int| 0 <= i < 11 && r.start_piece_type == crate::piece_type::start_piece_type_spec(i),
            r.hash == 0,
    {
        GameState::with_start_piece_type(PieceType::random_pentomino())
    }

    /// The color to move: 0 blue, 1 yellow, 2 red, 3 green.
    pub fn get_current_color(&self) -> (r: usize)
        ensures
            r == self.ply % 4,
    {
        proof {
            lemma_skip_bits(0, 0, self.ply);
        }
        (self.ply & 0b11) as usize
    }

    /// -1 when blue or red is to move, +1 when yellow or green is.
    pub fn get_team(&self) -> (r: i16)
        ensures
            r == if self.ply % 2 == 1 { 1int } else { -1int },
    {
        let ply = self.ply;
        let bit = (ply & 0b1) as i16;
        proof {
            assert(ply & 1u8 == ply % 2) by (bit_vector);
        }
        (bit * 2) - 1
    }

    /// The fields covered by any color.
    pub fn get_occupied_fields(&self) -> (r: Bitboard)
        ensures
            forall|i: int| #[trigger] r.has(i) == occupied_spec(*self, i),
    {
        self.board[0].or(self.board[1]).or(self.board[2]).or(self.board[3])
    }

    /// Whether color `color` has skipped.
    pub fn has_color_skipped(&self, color: usize) -> (r: bool)
        requires
            color < 64,
        ensures
            r == skip_bit(self.skipped, color as int),
    {
        let mask: u64 = 1u64 << (color as u64);
        proof {
            let s = self.skipped;
            let c = color as u64;
            assert((s & mask != 0) == ((s >> c) & 1u64 == 1u64)) by (bit_vector)
                requires mask == 1u64 << c, c < 64u64;
        }
        self.skipped & mask != 0
    }

    /// Whether both colors of team `team & 1` (0: blue and red, 1: yellow and green) have
    /// skipped.
    pub fn has_team_skipped(&self, team: u8) -> (r: bool)
        ensures
            r == (skip_bit(self.skipped, (team % 2) as int) && skip_bit(
                self.skipped,
                (team % 2) as int + 2,
            )),
    {
        let tb = team & 0b1;
        proof {
            assert(tb <= 1) by (bit_vector)
                requires tb == team & 1u8;
        }
        let team_mask: u64 = 0b101u64 << (tb as u64);
        proof {
            let s = self.skipped;
            let t = team;
            assert(((s & team_mask) == team_mask) == (((s >> ((t % 2) as u64)) & 1u64 == 1u64) && ((
            s >> ((t % 2 + 2) as u64)) & 1u64 == 1u64))) by (bit_vector)
                requires team_mask == 5u64 << (tb as u64), tb == t & 1u8;
        }
        self.skipped & team_mask == team_mask
    }

    /// Makes action `action` for the color to move.
    pub fn do_action(&mut self, action: Action)
        requires
            old(self).ply < 255,
            !action.is_skip_spec() ==> action.shape_spec() < 91,
        ensures
            action_done(*old(self), *final(self), action),
    {
        self.hash = self.hash ^ ply_hash(self.ply);
        let color = self.get_current_color();
        if action.is_skip() {
            self.skipped = (self.skipped << 4u64) | (self.skipped & 0b1111u64) | (1u64 << (
            color as u64));
        } else {
            let destination = action.get_destination();
            let shape = action.get_shape() as usize;
            let piece_type = PieceType::from_shape(shape);
            let t = piece_type.index();
            let mut row = self.pieces_left[t];
            row[color] = false;
            self.pieces_left[t] = row;
            let piece = Bitboard::with_piece(destination, shape);
            self.board[color] = self.board[color].xor(piece);
            self.hash = self.hash ^ shape_hash(shape as u16, color as u8) ^ destination_hash(
                destination,
                color as u8,
            );
            self.monomino_placed_last[color] = piece_type == PieceType::Monomino;
        }
        self.ply = self.ply + 1;
    }

    /// Takes back action `action`, the last action made.
    pub fn undo_action(&mut self, action: Action)
        requires
            old(self).ply > 0,
            !action.is_skip_spec() ==> action.shape_spec() < 91,
        ensures
            action_undone(*old(self), *final(self), action),
    {
        self.ply = self.ply - 1;
        self.hash = self.hash ^ ply_hash(self.ply);
        let color = self.get_current_color();
        if action.is_skip() {
            self.skipped = self.skipped >> 4u64;
        } else {
            let destination = action.get_destination();
            let shape = action.get_shape() as usize;
            let piece_type = PieceType::from_shape(shape);
            let t = piece_type.index();
            let mut row = self.pieces_left[t];
            row[color] = true;
            self.pieces_left[t] = row;
            let piece = Bitboard::with_piece(destination, shape);
            self.board[color] = self.board[color].xor(piece);
            self.hash = self.hash ^ shape_hash(shape as u16, color as u8) ^ destination_hash(
                destination,
                color as u8,
            );
        }
    }

    /// The legal fields and the placement fields of color `color`.
    fn move_fields(&self, color: usize) -> (r: (Bitboard, Bitboard))
        requires
            color < 4,
        ensures
            forall|i: int| #[trigger] r.0.has(i) == legal_field(*self, color as int, i),
            forall|i: int| #[trigger] r.1.has(i) == placement_field(*self, color as int, i),
    {
        let own = self.board[color];
        let other = self.get_occupied_fields().and(own.not());
        let legal = own.or(other).or(own.neighbours()).not().and(valid_fields());
        let p = if self.ply > 3 {
            own.diagonal_neighbours().and(legal)
        } else {
            start_fields().and(other.not())
        };
        (legal, p)
    }

    /// Adds the moves of piece type `t` (`1 <= t < 21`) when it is available to color `color`.
    fn add_type_moves(&self, t: usize, shortcuts: [Bitboard; 13], color: usize, al: &mut ActionList)
        requires
            1 <= t < 21,
            color < 4,
            shortcuts_ok(shortcuts),
        ensures
            self.pieces_left[t as int][color as int] ==> moves_added(
                old(al)@,
                final(al)@,
                gen_shapes(t as int),
                shortcuts[9],
                shortcuts[12],
            ),
            !self.pieces_left[t as int][color as int] ==> final(al)@ == old(al)@,
    {
        if !self.pieces_left[t][color] {
            return;
        }
        if t == 1 {
            domino(shortcuts, al);
        }         else if t == 2 {
            i_tromino(shortcuts, al);
        }         else if t == 3 {
            l_tromino(shortcuts, al);
        }         else if t == 4 {
            i_tetromino(shortcuts, al);
        }         else if t == 5 {
            l_tetromino(shortcuts, al);
        }         else if t == 6 {
            t_tetromino(shortcuts, al);
        }         else if t == 7 {
            o_tetromino(shortcuts, al);
        }         else if t == 8 {
            z_tetromino(shortcuts, al);
        }         else if t == 9 {
            f_pentomino(shortcuts, al);
        }         else if t == 10 {
            i_pentomino(shortcuts, al);
        }         else if t == 11 {
            l_pentomino(shortcuts, al);
        }         else if t == 12 {
            n_pentomino(shortcuts, al);
        }         else if t == 13 {
            p_pentomino(shortcuts, al);
        }         else if t == 14 {
            t_pentomino(shortcuts, al);
        }         else if t == 15 {
            u_pentomino(shortcuts, al);
        }         else if t == 16 {
            v_pentomino(shortcuts, al);
        }         else if t == 17 {
            w_pentomino(shortcuts, al);
        }         else if t == 18 {
            x_pentomino(shortcuts, al);
        }         else if t == 19 {
            y_pentomino(shortcuts, al);
        }         else if t == 20 {
            z_pentomino(shortcuts, al);
        }
    }

    /// Adds the moves of every piece type available to color `color`, given its legal fields
    /// `shortcuts[9]` and placement fields `shortcuts[12]`.
    fn add_all_moves(&self, shortcuts: [Bitboard; 13], color: usize, al: &mut ActionList)
        requires
            color < 4,
            shortcuts_ok(shortcuts),
            old(al)@ == Seq::<Action>::empty(),
        ensures
            typed_moves(final(al)@, shortcuts[9], shortcuts[12], self.pieces_left, color as int, 0, 21),
    {
        let ghost legal = shortcuts[9];
        let ghost p = shortcuts[12];
        let ghost c = color as int;
        let ghost pieces = self.pieces_left;
        proof {
            crate::movegen::lemma_typed_empty(legal, p, pieces, c, 1);
        }
        let mut t: usize = 1;
        while t < 21
            invariant
                1 <= t <= 21,
                color < 4,
                c == color,
                legal == shortcuts[9],
                p == shortcuts[12],
                pieces == self.pieces_left,
                shortcuts_ok(shortcuts),
                typed_moves(al@, legal, p, pieces, c, 1, t as int),
            decreases 21 - t,
        {
            let ghost before = al@;
            self.add_type_moves(t, shortcuts, color, al);
            proof {
                lemma_typed_step(before, al@, legal, p, pieces, c, 1, t as int, 1, t + 1, t as int);
            }
            t = t + 1;
        }
        let pb = shortcuts[12];
        let ghost a20 = al@;
        if self.pieces_left[0][color] {
            proof {
                assert forall|d: int| #[trigger] pb.has(d) == bb_destination(0, legal, p, d) by {
                }
            }
            append_shape(al, pb, 0, Ghost(legal), Ghost(p));
        }
        let ghost a21 = al@;
        proof {
            assert(gen_shapes(0) == seq![0usize]);
            lemma_typed_step(a20, a21, legal, p, pieces, c, 1, 21, 0, 21, 0);
        }
    }

    /// Keeps, in order, the actions whose shape is of the start piece type.
    fn keep_start_pieces(&self, al: &mut ActionList)
        requires
            forall|k: int| 0 <= k < old(al)@.len() ==> #[trigger] old(al)@[k].shape_spec() < 91,
        ensures
            final(al)@ == of_type(old(al)@, self.start_piece_type),
    {
        let ghost orig = al@;
        let ghost start = self.start_piece_type;
        let n = al.size();
        let mut idx: usize = 0;
        let mut i: usize = 0;
        while i < n
            invariant
                n == orig.len(),
                idx <= i <= n,
                al@.len() == n,
                start == self.start_piece_type,
                forall|k: int| 0 <= k < n ==> #[trigger] orig[k].shape_spec() < 91,
                al@.subrange(0, idx as int) == of_type(orig.subrange(0, i as int), start),
                forall|k: int|
                    idx <= k < i ==> shape_type_spec(#[trigger] al@[k].shape_spec() as usize)
                        != start,
                forall|k: int| i <= k < n ==> #[trigger] al@[k] == orig[k],
            decreases n - i,
        {
            let a = al.get(i);
            proof {
                assert(al@[i as int] == orig[i as int]);
                assert(orig[i as int].shape_spec() < 91);
                lemma_filter_step(orig, i as int, start);
            }
            let shape = a.get_shape() as usize;
            let ghost before = al@;
            if PieceType::from_shape(shape) == self.start_piece_type {
                al.swap(idx, i);
                proof {
                    assert(al@.subrange(0, idx + 1) =~= before.subrange(0, idx as int).push(a));
                }
                idx = idx + 1;
            }
            i = i + 1;
        }
        proof {
            assert(orig.subrange(0, n as int) =~= orig);
        }
        al.truncate(idx);
    }

    /// Fills `al` with the possible actions of the color to move: a skip when it has skipped
    /// before or has no legal move, otherwise all its legal moves.
    pub fn get_possible_actions(&self, al: &mut ActionList)
        ensures
            possible_actions(*self, final(al)@),
    {
        let color = self.get_current_color();
        al.clear();
        if self.has_color_skipped(color) {
            al.push(Action::skip());
            proof {
                assert(al@ =~= seq![Action(SKIP_CODE)]);
            }
            return;
        }
        let (legal, p) = self.move_fields(color);
        let v = valid_fields();
        let s0 = legal.and(legal.shr(1).and(v));
        let s1 = legal.and(legal.shl(1).and(v));
        let s2 = legal.and(legal.shr(21).and(v));
        let s3 = legal.and(legal.shl(21).and(v));
        let s4 = s0.and(legal.shr(2).and(v));
        let s5 = s1.and(legal.shl(2).and(v));
        let s6 = s2.and(legal.shr(42).and(v));
        let s7 = s3.and(legal.shl(42).and(v));
        let s8 = s4.and(legal.shr(3).and(v));
        let s10 = s6.and(legal.shr(63).and(v));
        let s11 = s0.and(s0.shr(21));
        let shortcuts: [Bitboard; 13] = [s0, s1, s2, s3, s4, s5, s6, s7, s8, legal, s10, s11, p];
        proof {
            assert(shortcuts[9] == legal);
            assert(shortcuts[12] == p);
            reveal(shortcuts_ok);
            assert(shortcuts_ok(shortcuts));
        }
        self.add_all_moves(shortcuts, color, al);
        let ghost c = color as int;
        let ghost pieces = self.pieces_left;
        let ghost orig = al@;
        let ghost start = self.start_piece_type;
        proof {
            reveal(typed_moves);
            assert forall|k: int| 0 <= k < orig.len() implies #[trigger] orig[k].shape_spec() < 91 by {
            }
        }
        if self.ply < 4 {
            self.keep_start_pieces(al);
        }
        let ghost filtered = al@;
        proof {
            self.lemma_generated_moves(orig, filtered, legal, p);
        }
        if al.size() == 0 {
            al.push(Action::skip());
            proof {
                if exists|d: int, sh: int| legal_move(*self, d, sh) {
                    let (d, sh) = choose|d: int, sh: int| legal_move(*self, d, sh);
                    assert(filtered.contains(Action((d * 128 + sh) as u16)));
                }
                assert(al@ =~= seq![Action(SKIP_CODE)]);
            }
        } else {
            proof {
                let a = filtered[0];
                assert(legal_move(*self, a.destination_spec(), a.shape_spec()));
            }
        }
    }

    /// The generated moves, filtered to the start piece type in the first round, are exactly
    /// the legal moves.
    proof fn lemma_generated_moves(
        &self,
        orig: Seq<Action>,
        filtered: Seq<Action>,
        legal: Bitboard,
        p: Bitboard,
    )
        requires
            typed_moves(orig, legal, p, self.pieces_left, (self.ply % 4) as int, 0, 21),
            forall|i: int| #[trigger] legal.has(i) == legal_field(*self, (self.ply % 4) as int, i),
            forall|i: int| #[trigger] p.has(i) == placement_field(*self, (self.ply % 4) as int, i),
            self.ply < 4 ==> filtered == of_type(orig, self.start_piece_type),
            self.ply >= 4 ==> filtered == orig,
        ensures
            forall|k: int|
                0 <= k < filtered.len() ==> legal_move(
                    *self,
                    #[trigger] filtered[k].destination_spec(),
                    filtered[k].shape_spec(),
                ),
            forall|d: int, sh: int|
                #[trigger] legal_move(*self, d, sh) ==> filtered.contains(
                    Action((d * 128 + sh) as u16),
                ),
            forall|k1: int, k2: int|
                0 <= k1 < k2 < filtered.len() ==> #[trigger] filtered[k1] != #[trigger] filtered[k2],
    {
        broadcast use vstd::seq_lib::group_filter_ensures;
        reveal(typed_moves);
        let c = (self.ply % 4) as int;
        let start = self.start_piece_type;
        let pieces = self.pieces_left;
        let fl = |i: int| legal_field(*self, c, i);
        let fp = |i: int| placement_field(*self, c, i);
        assert((|i: int| legal.has(i)) =~= fl);
        assert((|i: int| p.has(i)) =~= fp);
        let fpred = |a: Action| shape_type_spec(a.shape_spec() as usize) == start;
        if self.ply < 4 {
            lemma_filter_distinct(orig, start);
        }
        assert forall|k: int| 0 <= k < filtered.len() implies legal_move(
            *self,
            #[trigger] filtered[k].destination_spec(),
            filtered[k].shape_spec(),
        ) by {
            let a = filtered[k];
            if self.ply < 4 {
                assert(orig.filter(fpred)[k] == a);
                assert(fpred(a));
                assert(orig.filter(fpred).contains(a));
                orig.lemma_filter_contains_rev(fpred, a);
                let j = choose|j: int| 0 <= j < orig.len() && orig[j] == a;
                assert(orig[j].shape_spec() < 91);
            } else {
                assert(orig[k].shape_spec() < 91);
            }
        }
        assert forall|d: int, sh: int| #[trigger] legal_move(*self, d, sh) implies filtered.contains(
            Action((d * 128 + sh) as u16),
        ) by {
            let x = sh as usize;
            assert(bb_destination(x, legal, p, d));
            assert(type_in(pieces, c, 0, 21, shape_type_spec(x).index_spec()));
            let k = choose|k: int|
                0 <= k < orig.len() && #[trigger] orig[k].destination_spec() == d
                    && orig[k].shape_spec() == x;
            crate::action::lemma_action_roundtrip(orig[k], 0, 0);
            assert(orig[k] == Action((d * 128 + sh) as u16));
            if self.ply < 4 {
                assert(fpred(orig[k]));
                orig.lemma_filter_contains(fpred, k);
            } else {
                assert(filtered[k] == orig[k]);
            }
        }
    }

    /// Whether the game has ended: every color has skipped, or more than 100 moves were made.
    pub fn is_game_over(&self) -> (r: bool)
        ensures
            r == ((self.skipped & 15u64) == 15u64 || self.ply > 100),
    {
        self.skipped & 0b1111u64 == 0b1111u64 || self.ply > 100
    }
}

} // verus!

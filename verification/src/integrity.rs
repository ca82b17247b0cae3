use vstd::prelude::*;
use crate::action::Action;
use crate::bitboard::{Bitboard, valid_fields, start_fields, lemma_has_ext};
use crate::gamestate::{GameState, legal_field, placement_field};
use crate::piece_type::{PieceType, shape_type_spec, piece_type_spec};
use crate::pieces::pieces_from;

verus! {

broadcast use vstd::array::group_array_axioms;

/// The number of the piece type of the shape of action `a`.
pub open spec fn type_of_action(a: Action) -> int {
    shape_type_spec(a.shape_spec() as usize).index_spec()
}

/// Some action among the first `n` of `acts` places a piece of type `t`.
pub open spec fn has_type_upto(acts: Seq<Action>, t: int, n: int) -> bool {
    exists|j: int| 0 <= j < n && #[trigger] type_of_action(acts[j]) == t
}

/// The number of fields covered by the piece types below `n` that color `c` has used.
pub open spec fn used_size(s: GameState, c: int, n: nat) -> int
    decreases n,
{
    if n == 0 {
        0
    } else {
        used_size(s, c, (n - 1) as nat) + if !s.pieces_left[n - 1][c] {
            piece_type_spec(n - 1).size_spec()
        } else {
            0
        }
    }
}

/// The pieces on the boards agree with the pieces left: for every color, a piece type is used
/// exactly when a piece of that type lies on the color's board, and the used piece types cover
/// as many fields as the board has.
pub open spec fn integrity(s: GameState) -> bool {
    &&& forall|c: int, t: int|
        0 <= c < 4 && 0 <= t < 21 ==> #[trigger] s.pieces_left[t][c] == !has_type_upto(
            pieces_from(s.board[c], 512),
            t,
            pieces_from(s.board[c], 512).len() as int,
        )
    &&& forall|c: int| 0 <= c < 4 ==> #[trigger] used_size(s, c, 21) == s.board[c].count_ones_spec()
}

/// Every piece on the boards is one of the 91 shapes.
pub open spec fn pieces_recognised(s: GameState) -> bool {
    forall|c: int, i: int|
        0 <= c < 4 && 0 <= i < pieces_from(s.board[c], 512).len() ==> !(#[trigger] pieces_from(
            s.board[c],
            512,
        )[i]).is_skip_spec()
}

/// Whether action `a` is a move that the color to move may make: a skip, or a piece type it
/// still has (the start piece type in the first round) placed on legal fields only, touching a
/// placement field, and covering as many fields as the piece type has.
pub open spec fn action_valid(s: GameState, a: Action) -> bool {
    let c = (s.ply % 4) as int;
    let t = shape_type_spec(a.shape_spec() as usize);
    let piece = Bitboard::with_piece_spec(a.destination_spec() as u16, a.shape_spec() as usize);
    a.is_skip_spec() || {
        &&& s.pieces_left[t.index_spec()][c]
        &&& !(s.ply < 4 && t != s.start_piece_type)
        &&& exists|i: int| #[trigger] piece.has(i) && placement_field(s, c, i)
        &&& forall|i: int| #[trigger] piece.has(i) ==> legal_field(s, c, i)
        &&& t.size_spec() == (piece.count_ones_spec() as u8)
    }
}

/// The points of color `c`: one per covered field, and 15 more for placing all pieces, 20 if
/// the monomino came last.
pub open spec fn score(s: GameState, c: int) -> int {
    let fields = s.board[c].count_ones_spec() as int;
    fields + if fields == 89 {
        15 + if s.monomino_placed_last[c] {
            5int
        } else {
            0int
        }
    } else {
        0int
    }
}

pub(crate) proof fn lemma_used_size_bound(s: GameState, c: int, n: nat)
    requires
        n <= 21,
    ensures
        0 <= used_size(s, c, n) <= 5 * n,
    decreases n,
{
    if n > 0 {
        lemma_used_size_bound(s, c, (n - 1) as nat);
    }
}

/// The score of the game: the points of blue and red minus those of yellow and green.
pub open spec fn game_result_spec(s: GameState) -> int {
    score(s, 0) - score(s, 1) + score(s, 2) - score(s, 3)
}

impl GameState {
    /// Whether the pieces on the boards agree with the pieces left (see `integrity`).
    pub fn check_integrity(&self) -> (r: bool)
        requires
            pieces_recognised(*self),
        ensures
            r == integrity(*self),
    {
        let mut color: usize = 0;
        while color < 4
            invariant
                color <= 4,
                pieces_recognised(*self),
                forall|c: int, t: int|
                    0 <= c < color && 0 <= t < 21 ==> #[trigger] self.pieces_left[t][c]
                        == !has_type_upto(
                        pieces_from(self.board[c], 512),
                        t,
                        pieces_from(self.board[c], 512).len() as int,
                    ),
            decreases 4 - color,
        {
            let pieces = self.board[color].get_pieces();
            let ghost ps = pieces_from(self.board[color as int], 512);
            let mut left: [bool; 21] = [true; 21];
            let mut i: usize = 0;
            while i < pieces.len()
                invariant
                    i <= pieces@.len(),
                    pieces@ == ps,
                    color < 4,
                    pieces_recognised(*self),
                    ps == pieces_from(self.board[color as int], 512),
                    forall|t: int| 0 <= t < 21 ==> #[trigger] left[t] == !has_type_upto(ps, t, i as int),
                decreases pieces@.len() - i,
            {
                let piece = pieces[i];
                proof {
                    assert(!ps[i as int].is_skip_spec());
                    crate::pieces::lemma_pieces_shapes(self.board[color as int], 512);
                }
                let pt = PieceType::from_shape(piece.get_shape() as usize);
                let k = pt.index();
                left[k] = false;
                proof {
                    assert forall|t: int| 0 <= t < 21 implies #[trigger] left[t] == !has_type_upto(
                        ps,
                        t,
                        i + 1,
                    ) by {
                        if t == k {
                            assert(type_of_action(ps[i as int]) == t);
                        } else {
                            if has_type_upto(ps, t, i + 1) {
                                let j = choose|j: int| 0 <= j < i + 1 && #[trigger] type_of_action(ps[j]) == t;
                                assert(j != i);
                            }
                        }
                    }
                }
                i = i + 1;
            }
            let mut t: usize = 0;
            while t < 21
                invariant
                    t <= 21,
                    color < 4,
                    pieces@ == ps,
                    ps == pieces_from(self.board[color as int], 512),
                    forall|u: int| 0 <= u < 21 ==> #[trigger] left[u] == !has_type_upto(ps, u, ps.len() as int),
                    forall|u: int| 0 <= u < t ==> #[trigger] self.pieces_left[u][color as int] == left[u],
                decreases 21 - t,
            {
                if self.pieces_left[t][color] != left[t] {
                    return false;
                }
                t = t + 1;
            }
            color = color + 1;
        }
        let mut color: usize = 0;
        while color < 4
            invariant
                color <= 4,
                forall|c: int, t: int|
                    0 <= c < 4 && 0 <= t < 21 ==> #[trigger] self.pieces_left[t][c]
                        == !has_type_upto(
                        pieces_from(self.board[c], 512),
                        t,
                        pieces_from(self.board[c], 512).len() as int,
                    ),
                forall|c: int| 0 <= c < color ==> #[trigger] used_size(*self, c, 21) == self.board[c].count_ones_spec(),
            decreases 4 - color,
        {
            let mut should_have: u32 = 0;
            let mut t: usize = 0;
            while t < 21
                invariant
                    t <= 21,
                    color < 4,
                    should_have == used_size(*self, color as int, t as nat),
                decreases 21 - t,
            {
                proof {
                    lemma_used_size_bound(*self, color as int, t as nat);
                }
                if !self.pieces_left[t][color] {
                    let pt = PieceType::from_index(t);
                    should_have = should_have + pt.piece_size() as u32;
                }
                t = t + 1;
            }
            if should_have != self.board[color].count_ones() {
                return false;
            }
            color = color + 1;
        }
        true
    }

    /// Whether `action` is a move the color to move may make (see `action_valid`).
    pub fn validate_action(&self, action: &Action) -> (r: bool)
        requires
            !action.is_skip_spec() ==> action.shape_spec() < 91,
        ensures
            r == action_valid(*self, *action),
    {
        let color = self.get_current_color();
        if action.is_skip() {
            return true;
        }
        let mut is_valid = true;
        let destination = action.get_destination();
        let shape = action.get_shape() as usize;
        let piece_type = PieceType::from_shape(shape);
        if self.ply < 4 && !(piece_type == self.start_piece_type) {
            is_valid = false;
        }
        if !self.pieces_left[piece_type.index()][color] {
            return false;
        }
        let piece = Bitboard::with_piece(destination, shape);
        let own_fields = self.board[color];
        let other_fields = self.get_occupied_fields().and(own_fields.not());
        let legal_fields = own_fields.or(other_fields).or(own_fields.neighbours()).not().and(
            valid_fields(),
        );
        let p = if self.ply > 3 {
            own_fields.diagonal_neighbours().and(legal_fields)
        } else {
            start_fields().and(other_fields.not())
        };
        proof {
            crate::bitboard::lemma_board_constants();
            assert(forall|i: int| #[trigger] legal_fields.has(i) == legal_field(*self, color as int, i));
            assert(forall|i: int| #[trigger] p.has(i) == placement_field(*self, color as int, i));
        }
        let touching = piece.and(p);
        if touching.is_empty() {
            proof {
                assert forall|i: int| #[trigger] piece.has(i) implies !placement_field(*self, color as int, i) by {
                    assert(!touching.has(i));
                }
            }
            is_valid = false;
        } else {
            proof {
                let i = choose|i: int| #[trigger] touching.has(i);
                assert(piece.has(i) && placement_field(*self, color as int, i));
            }
        }
        let inside = piece.and(legal_fields);
        if inside != piece {
            proof {
                if forall|i: int| #[trigger] piece.has(i) ==> legal_field(*self, color as int, i) {
                    assert forall|i: int| #[trigger] inside.has(i) == piece.has(i) by {
                    }
                    lemma_has_ext(inside, piece);
                }
            }
            is_valid = false;
        } else {
            proof {
                assert forall|i: int| #[trigger] piece.has(i) implies legal_field(*self, color as int, i) by {
                    assert(inside.has(i));
                }
            }
        }
        let count = piece.count_ones();
        let size_ok = piece_type.piece_size() == #[verifier::truncate] (count as u8);
        if !size_ok {
            is_valid = false;
        }
        proof {
            let c = color as int;
            let t = shape_type_spec(shape);
            assert(size_ok == (t.size_spec() == (#[verifier::truncate] (piece.count_ones_spec() as u8))));
            assert(piece == Bitboard::with_piece_spec(action.destination_spec() as u16, action.shape_spec() as usize));
            assert(c == (self.ply % 4) as int);
            assert(self.pieces_left[t.index_spec()][c]);
            assert(is_valid == (!(self.ply < 4 && t != self.start_piece_type)
                && (exists|i: int| #[trigger] piece.has(i) && placement_field(*self, c, i))
                && (forall|i: int| #[trigger] piece.has(i) ==> legal_field(*self, c, i))
                && size_ok));
        }
        is_valid
    }

    /// The score of the game: the points of blue and red minus those of yellow and green (see
    /// `score`).
    pub fn game_result(&self) -> (r: i16)
        ensures
            r == game_result_spec(*self),
    {
        let mut result: i16 = 0;
        let mut color: usize = 0;
        while color < 4
            invariant
                color <= 4,
                result == (if color > 0 { score(*self, 0) } else { 0 }) - (if color > 1 { score(*self, 1) } else { 0 })
                    + (if color > 2 { score(*self, 2) } else { 0 }) - (if color > 3 { score(*self, 3) } else { 0 }),
                forall|c: int| 0 <= c < color ==> 0 <= #[trigger] score(*self, c) <= 532,
            decreases 4 - color,
        {
            let fields = self.board[color].count_ones() as i16;
            let bonus: i16 = if fields == 89 {
                15 + 5 * (if self.monomino_placed_last[color] { 1i16 } else { 0i16 })
            } else {
                0
            };
            let sign: i16 = if color % 2 == 1 { 1 } else { -1 };
            proof {
                assert(score(*self, color as int) == fields + bonus);
            }
            result = result - (fields + bonus) * sign;
            color = color + 1;
        }
        result
    }
}

} // verus!

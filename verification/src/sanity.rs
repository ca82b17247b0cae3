use vstd::prelude::*;
use crate::action::Action;
use crate::bits::u128_bit;
use crate::bitboard::{
    Bitboard, is_valid_field, piece_shape_spec, piece_origin, lemma_with_piece_bits,
    choose_set_bit,
};
use crate::gamestate::{
    GameState, legal_move, legal_field, placement_field, occupied_spec, action_done,
    action_undone, lemma_xor_cancel, lemma_xor_cancel_u128, skip_bit,
};
use crate::hashing::{ply_hash_spec, shape_hash_spec, destination_hash_spec};
use crate::piece_type::shape_type_spec;
use crate::shape_bits::lemma_piece_fields;
use crate::shapes::shape_fits;
use crate::bits::lemma_u128_bitwise;

verus! {

broadcast use vstd::array::group_array_axioms;

/// The boards lie on the 20x20 board and no field has two colors.
pub open spec fn boards_sane(s: GameState) -> bool {
    &&& forall|c: int, i: int| 0 <= c < 4 && #[trigger] s.board[c].has(i) ==> is_valid_field(i)
    &&& forall|c: int, k: int, i: int|
        0 <= c < 4 && 0 <= k < 4 && c != k && #[trigger] s.board[c].has(i) ==> !#[trigger] s.board[k].has(i)
}

/// Action `a` is one that move generation offers in `s`: a skip or a legal move.
pub open spec fn possible_action(s: GameState, a: Action) -> bool {
    a.is_skip_spec() || legal_move(s, a.destination_spec(), a.shape_spec())
}

/// Free of other colors and on the 20x20 board, for color `c`.
pub open spec fn open_field(s: GameState, c: int, i: int) -> bool {
    is_valid_field(i) && !(occupied_spec(s, i) && !s.board[c].has(i))
}

proof fn lemma_shape_word_nonzero(sh: usize)
    requires
        sh < 91,
    ensures
        piece_shape_spec(sh) != 0,
{
}

/// A legal move covers only fields of the 20x20 board that no other color has: the fields of
/// its piece are the offsets of its shape from its destination.
pub proof fn lemma_legal_piece(s: GameState, d: int, sh: int)
    requires
        legal_move(s, d, sh),
    ensures
        0 <= d < 420,
        forall|i: int|
            #[trigger] Bitboard::with_piece_spec(d as u16, sh as usize).has(i) ==> open_field(
                s,
                (s.ply % 4) as int,
                i,
            ),
{
    let c = (s.ply % 4) as int;
    let shape = sh as usize;
    let w = piece_shape_spec(shape);
    let l = |i: int| open_field(s, c, i);
    let lf = |i: int| legal_field(s, c, i);
    lemma_piece_fields(shape, l, d);
    if sh == 0 {
        assert(placement_field(s, c, d));
        assert(shape_fits(shape, l, d));
    } else {
        assert(shape_fits(shape, lf, d));
        lemma_piece_fields(shape, lf, d);
        assert forall|j: int| #[trigger] u128_bit(w, j) implies l(d + j) by {
            assert(lf(d + j));
        }
    }
    assert(forall|j: int| #[trigger] u128_bit(w, j) ==> l(d + j));
    lemma_shape_word_nonzero(shape);
    let j0 = choose_set_bit(w);
    assert(l(d + j0));
    assert(0 <= d < 420);
    assert(piece_origin(d as u16) == d);
    lemma_with_piece_bits(d as u16, shape);
    assert forall|i: int| #[trigger] Bitboard::with_piece_spec(d as u16, shape).has(i) implies open_field(s, c, i) by {
        assert(u128_bit(w, i - d));
        assert(l(d + (i - d)));
    }
}

/// The bits of the xor of two boards.
pub proof fn lemma_xor_bits(a: Bitboard, b: Bitboard)
    ensures
        forall|i: int| #[trigger] a.xor_spec(b).has(i) == (a.has(i) != b.has(i)),
{
    lemma_u128_bitwise(a.0, b.0);
    lemma_u128_bitwise(a.1, b.1);
    lemma_u128_bitwise(a.2, b.2);
    lemma_u128_bitwise(a.3, b.3);
}

/// Making a possible action keeps the boards on the 20x20 board and the colors apart.
pub proof fn lemma_possible_keeps_sane(s: GameState, t: GameState, a: Action)
    requires
        boards_sane(s),
        possible_action(s, a),
        action_done(s, t, a),
    ensures
        boards_sane(t),
{
    let c = (s.ply % 4) as int;
    if !a.is_skip_spec() {
        let d = a.destination_spec();
        let sh = a.shape_spec();
        let p = Bitboard::with_piece_spec(d as u16, sh as usize);
        lemma_legal_piece(s, d, sh);
        lemma_xor_bits(s.board[c], p);
        assert forall|k: int, i: int| 0 <= k < 4 && #[trigger] t.board[k].has(i) implies is_valid_field(i) by {
            if k == c && p.has(i) {
                assert(open_field(s, c, i));
            }
        }
        assert forall|k: int, m: int, i: int|
            0 <= k < 4 && 0 <= m < 4 && k != m && #[trigger] t.board[k].has(i) implies !#[trigger] t.board[m].has(i) by {
            if p.has(i) {
                assert(open_field(s, c, i));
                if k == c {
                    assert(!s.board[m].has(i));
                } else if m == c {
                    assert(!s.board[k].has(i));
                }
            }
        }
    } else {
        assert(t.board == s.board);
    }
}

/// Taking back a possible action just made gives back the ply, the boards, the pieces left,
/// the start piece type and the hash.
pub proof fn lemma_undo_restores(s: GameState, t: GameState, u: GameState, a: Action)
    requires
        possible_action(s, a),
        action_done(s, t, a),
        action_undone(t, u, a),
    ensures
        u.ply == s.ply,
        u.board == s.board,
        u.pieces_left == s.pieces_left,
        u.start_piece_type == s.start_piece_type,
        u.hash == s.hash,
{
    let c = s.ply % 4;
    crate::gamestate::lemma_skip_bits(0, 0, s.ply);
    if a.is_skip_spec() {
        lemma_xor_cancel(s.hash, ply_hash_spec(s.ply), 0, 0);
    } else {
        let shape = a.shape_spec() as usize;
        let d = a.destination_spec() as u16;
        let w = Bitboard::with_piece_spec(d, shape);
        lemma_xor_cancel(
            s.hash,
            ply_hash_spec(s.ply),
            shape_hash_spec(shape as u16, c as u8),
            destination_hash_spec(d, c as u8),
        );
        assert forall|k: int| 0 <= k < 4 implies u.board[k] == s.board[k] by {
            if k == c {
                lemma_xor_cancel_u128(s.board[k].0, w.0);
                lemma_xor_cancel_u128(s.board[k].1, w.1);
                lemma_xor_cancel_u128(s.board[k].2, w.2);
                lemma_xor_cancel_u128(s.board[k].3, w.3);
            }
        }
        assert(u.board =~= s.board);
        assert forall|k: int| 0 <= k < 21 implies u.pieces_left[k] =~= s.pieces_left[k] by {
            assert forall|j: int| 0 <= j < 4 implies u.pieces_left[k][j] == s.pieces_left[k][j] by {
            }
        }
        assert(u.pieces_left =~= s.pieces_left);
    }
}

/// The two states agree on everything but the skip record and the last-piece flags.
pub open spec fn same_position(s: GameState, t: GameState) -> bool {
    &&& s.ply == t.ply
    &&& s.board == t.board
    &&& s.pieces_left == t.pieces_left
    &&& s.start_piece_type == t.start_piece_type
    &&& s.hash == t.hash
}

/// The legal moves do not depend on the skip record or the last-piece flags.
pub proof fn lemma_same_moves(s: GameState, t: GameState, a: Action)
    requires
        same_position(s, t),
    ensures
        possible_action(s, a) == possible_action(t, a),
        boards_sane(s) == boards_sane(t),
{
    let c = (s.ply % 4) as int;
    assert((|i: int| legal_field(s, c, i)) =~= (|i: int| legal_field(t, c, i)));
    assert((|i: int| placement_field(s, c, i)) =~= (|i: int| placement_field(t, c, i)));
}

/// Taking back a possible action from a state that agrees with the one it led to gives back
/// the position it was made in.
pub proof fn lemma_undo_same(s: GameState, t: GameState, t2: GameState, u: GameState, a: Action)
    requires
        possible_action(s, a),
        action_done(s, t, a),
        same_position(t2, t),
        action_undone(t2, u, a),
    ensures
        same_position(u, s),
{
    let u2 = GameState {
        skipped: if a.is_skip_spec() { t.skipped >> 4u64 } else { t.skipped },
        monomino_placed_last: t.monomino_placed_last,
        ..u
    };
    assert(action_undone(t, u2, a));
    lemma_undo_restores(s, t, u2, a);
}

/// The state that action `a` leads to from `s` (see `action_done`).
pub open spec fn next_state(s: GameState, a: Action) -> GameState {
    choose|t: GameState| action_done(s, t, a)
}

/// An action leads to one state only.
pub proof fn lemma_action_done_unique(s: GameState, t1: GameState, t2: GameState, a: Action)
    requires
        action_done(s, t1, a),
        action_done(s, t2, a),
    ensures
        t1 == t2,
{
    assert(t1.board =~= t2.board);
    assert forall|k: int| 0 <= k < 21 implies t1.pieces_left[k] =~= t2.pieces_left[k] by {
        assert forall|j: int| 0 <= j < 4 implies t1.pieces_left[k][j] == t2.pieces_left[k][j] by {
        }
    }
    assert(t1.pieces_left =~= t2.pieces_left);
    assert(t1.monomino_placed_last =~= t2.monomino_placed_last);
}

/// A state an action led to is `next_state`.
pub proof fn lemma_next_state(s: GameState, t: GameState, a: Action)
    requires
        action_done(s, t, a),
    ensures
        next_state(s, a) == t,
{
    lemma_action_done_unique(s, t, next_state(s, a), a);
}


impl GameState {
    /// Whether every board lies on the 20x20 board and no two colors share a field (see
    /// `boards_sane`).
    pub fn boards_are_sane(&self) -> (r: bool)
        ensures
            r == boards_sane(*self),
    {
        let valid = crate::bitboard::valid_fields();
        proof {
            crate::bitboard::lemma_board_constants();
        }
        let mut c: usize = 0;
        while c < 4
            invariant
                c <= 4,
                forall|i: int| #[trigger] valid.has(i) == is_valid_field(i),
                forall|cc: int, i: int| 0 <= cc < c && #[trigger] self.board[cc].has(i) ==> is_valid_field(i),
                forall|cc: int, k: int, i: int|
                    0 <= cc < c && 0 <= k < 4 && cc != k && #[trigger] self.board[cc].has(i) ==> !#[trigger] self.board[k].has(i),
            decreases 4 - c,
        {
            let outside = self.board[c].and(valid.not());
            proof {
                crate::bitboard::lemma_empty_iff(outside);
            }
            if outside.not_empty() {
                proof {
                    let i = choose|i: int| #[trigger] outside.has(i);
                    assert(self.board[c as int].has(i) && !is_valid_field(i));
                }
                return false;
            }
            proof {
                assert forall|i: int| #[trigger] self.board[c as int].has(i) implies is_valid_field(i) by {
                    assert(!outside.has(i));
                }
            }
            let mut k: usize = 0;
            while k < 4
                invariant
                    c < 4,
                    k <= 4,
                    forall|kk: int, i: int|
                        0 <= kk < k && kk != c && #[trigger] self.board[c as int].has(i) ==> !#[trigger] self.board[kk].has(i),
                decreases 4 - k,
            {
                if k != c {
                    let both = self.board[c].and(self.board[k]);
                    proof {
                        crate::bitboard::lemma_empty_iff(both);
                    }
                    if both.not_empty() {
                        proof {
                            let i = choose|i: int| #[trigger] both.has(i);
                            assert(self.board[c as int].has(i) && self.board[k as int].has(i));
                        }
                        return false;
                    }
                    proof {
                        assert forall|i: int| #[trigger] self.board[c as int].has(i) implies !self.board[k as int].has(i) by {
                            assert(!both.has(i));
                        }
                    }
                }
                k = k + 1;
            }
            c = c + 1;
        }
        true
    }
}


/// Taking back an action just made that `validate_action` accepts (a skip included) gives back
/// the position but for which monomino flags are set, and the position itself after a skip;
/// the skip record must have room for one more skip.
pub proof fn lemma_undo_round_trip(s: GameState, t: GameState, u: GameState, a: Action)
    requires
        crate::integrity::action_valid(s, a),
        action_done(s, t, a),
        action_undone(t, u, a),
        s.skipped < 0x1000000000000000u64,
    ensures
        u == (GameState { monomino_placed_last: u.monomino_placed_last, ..s }),
        a.is_skip_spec() ==> u == s,
{
    lemma_undo_round_trip_core(s, t, u, a);
}

#[verifier::rlimit(40)]
proof fn lemma_undo_round_trip_core(s: GameState, t: GameState, u: GameState, a: Action)
    requires
        !a.is_skip_spec() ==> s.pieces_left[shape_type_spec(a.shape_spec() as usize).index_spec()][(s.ply % 4) as int],
        action_done(s, t, a),
        action_undone(t, u, a),
        s.skipped < 0x1000000000000000u64,
    ensures
        u == (GameState { monomino_placed_last: u.monomino_placed_last, ..s }),
        a.is_skip_spec() ==> u == s,
{
    let c = s.ply % 4;
    crate::gamestate::lemma_skip_bits(s.skipped, c as u64, s.ply);
    assert(u.pieces_left =~= s.pieces_left) by {
        if !a.is_skip_spec() {
            assert forall|k: int, j: int| 0 <= k < 21 && 0 <= j < 4 implies #[trigger] u.pieces_left[k][j] == s.pieces_left[k][j] by {
            }
            assert forall|k: int| 0 <= k < 21 implies #[trigger] u.pieces_left[k] =~= s.pieces_left[k] by {
            }
        }
    }
    if !a.is_skip_spec() {
        let shape = a.shape_spec() as usize;
        let d = a.destination_spec() as u16;
        let p = crate::bitboard::Bitboard::with_piece_spec(d, shape);
        assert forall|k: int| 0 <= k < 4 implies #[trigger] u.board[k] == s.board[k] by {
            if k == c {
                lemma_xor_bits(s.board[k], p);
                lemma_xor_bits(t.board[k], p);
                assert forall|i: int| #[trigger] u.board[k].has(i) == s.board[k].has(i) by {
                }
                crate::bitboard::lemma_has_ext(u.board[k], s.board[k]);
            }
        }
        assert(u.board =~= s.board);
        crate::gamestate::lemma_xor_cancel(s.hash, crate::hashing::ply_hash_spec(s.ply),
            crate::hashing::shape_hash_spec(shape as u16, c as u8), crate::hashing::destination_hash_spec(d, c as u8));
    } else {
        crate::gamestate::lemma_xor_cancel(s.hash, crate::hashing::ply_hash_spec(s.ply), 0, 0);
    }
}

/// A color has skipped after an action exactly when it had skipped before or the action is a
/// skip of that color.
pub proof fn lemma_skipped_after(s: GameState, t: GameState, a: Action, k: int)
    requires
        action_done(s, t, a),
        0 <= k < 4,
    ensures
        skip_bit(t.skipped, k) == (skip_bit(s.skipped, k) || (a.is_skip_spec() && k == s.ply % 4)),
{
    if a.is_skip_spec() {
        let x = s.skipped;
        let c = (s.ply % 4) as u64;
        let kk = k as u64;
        assert(((((x << 4u64) | (x & 15u64) | (1u64 << c)) >> kk) & 1u64 == 1u64) == (((x >> kk) & 1u64
            == 1u64) || kk == c)) by (bit_vector)
            requires c < 4, kk < 4;
    }
}

} // verus!

use vstd::prelude::*;
use crate::action::Action;
use crate::bitboard::Bitboard;
use crate::gamestate::GameState;
use crate::geometry::{
    flip_spec, mirror_spec, diagonal_spec, rotate_left_spec, on_board, lemma_mirrors_undo,
    lemma_rotations, lemma_maps_on_board, lemma_geometry_bits, flip_source, mirror_source,
    diagonal_source,
};
use crate::bitboard::is_valid_field;
use crate::pieces::action_of_board;

verus! {

broadcast use vstd::array::group_array_axioms;

/// The board turned so that corner `corner` (0 top left, 1 top right, 2 bottom left, 3 bottom
/// right) becomes the top left corner: mirrored, flipped or turned half round.
pub open spec fn corner_turn(corner: u8, b: Bitboard) -> Bitboard {
    if corner == 1 {
        mirror_spec(b)
    } else if corner == 2 {
        flip_spec(b)
    } else if corner == 3 {
        rotate_left_spec(rotate_left_spec(b))
    } else {
        b
    }
}

/// The corner of the board that `b` started from: the first of the top left, top right and
/// bottom left corner fields that `b` has, else the bottom right one.
pub open spec fn start_corner(b: Bitboard) -> u8 {
    if b.has(0) {
        0
    } else if b.has(19) {
        1
    } else if b.has(399) {
        2
    } else {
        3
    }
}

/// Whether the board, turned to its start corner, lies below the diagonal: decided by the
/// first of the pairs of fields (1, 21), (2, 42), (23, 43), (24, 64) that differ, in favour of
/// mirroring when the first field of the pair is set.
pub open spec fn mirror_of(b: Bitboard) -> bool {
    if b.has(1) != b.has(21) {
        b.has(1)
    } else if b.has(2) != b.has(42) {
        b.has(2)
    } else if b.has(23) != b.has(43) {
        b.has(23)
    } else if b.has(24) != b.has(64) {
        b.has(24)
    } else {
        false
    }
}

/// Turns boards so that the color to move starts in the top left corner, and mirrors them at
/// the diagonal when asked to.
#[derive(Copy, Clone, Debug, PartialEq, Eq, Structural)]
pub struct Rotation {
    pub mirror: bool,
    pub top_left_corner: u8,
}

impl Rotation {
    /// The rotation of a board (see `Rotation::rotate_bitboard`).
    pub open spec fn rotated(self, b: Bitboard) -> Bitboard {
        let t = corner_turn(self.top_left_corner, b);
        if self.mirror {
            diagonal_spec(t)
        } else {
            t
        }
    }

    /// The rotation of a board taken back.
    pub open spec fn rotated_back(self, b: Bitboard) -> Bitboard {
        corner_turn(self.top_left_corner, if self.mirror {
            diagonal_spec(b)
        } else {
            b
        })
    }

    pub fn new(mirror: bool, top_left_corner: u8) -> (r: Rotation)
        ensures
            r == (Rotation { mirror, top_left_corner }),
    {
        Rotation { mirror, top_left_corner }
    }

    /// The rotation that brings the start corner of the color to move to the top left and its
    /// pieces below the diagonal (see `start_corner` and `mirror_of`).
    pub fn from_state(state: &GameState) -> (r: Rotation)
        ensures
            r.top_left_corner == start_corner(state.board[(state.ply % 4) as int]),
            r.mirror == mirror_of(state.board[(state.ply % 4) as int]),
    {
        let board = state.board[state.get_current_color()];
        let top_left_corner: u8 = if board.check_bit(0) {
            0
        } else if board.check_bit(19) {
            1
        } else if board.check_bit(399) {
            2
        } else {
            3
        };
        let pairs: [(u16, u16); 4] = [(1, 21), (2, 42), (23, 43), (24, 64)];
        let mut mirror = false;
        let mut k: usize = 0;
        while k < 4
            invariant_except_break
                k <= 4,
                !mirror,
                pairs[0] == (1u16, 21u16),
                pairs[1] == (2u16, 42u16),
                pairs[2] == (23u16, 43u16),
                pairs[3] == (24u16, 64u16),
                k == 4 ==> !mirror_of(board),
                forall|j: int| 0 <= j < k ==> board.has(#[trigger] pairs[j].0 as int) == board.has(
                    pairs[j].1 as int,
                ),
            ensures
                mirror == mirror_of(board),
            decreases 4 - k,
        {
            let (a, b) = pairs[k];
            let c = board.check_bit(a);
            let d = board.check_bit(b);
            proof {
                assert(forall|j: int| 0 <= j < k ==> board.has(#[trigger] pairs[j].0 as int) == board.has(
                    pairs[j].1 as int,
                ));
                if k >= 1 {
                    assert(board.has(pairs[0].0 as int) == board.has(pairs[0].1 as int));
                }
                if k >= 2 {
                    assert(board.has(pairs[1].0 as int) == board.has(pairs[1].1 as int));
                }
                if k >= 3 {
                    assert(board.has(pairs[2].0 as int) == board.has(pairs[2].1 as int));
                }
            }
            if c && !d {
                mirror = true;
                break;
            }
            if !c && d {
                break;
            }
            proof {
                if k == 3 {
                    assert(board.has(pairs[3].0 as int) == board.has(pairs[3].1 as int));
                    assert(!mirror_of(board));
                }
            }
            k = k + 1;
        }
        Rotation { mirror, top_left_corner }
    }

    /// The board turned to the rotation's corner, then mirrored at the diagonal if asked to.
    pub fn rotate_bitboard(&self, board: Bitboard) -> (r: Bitboard)
        ensures
            r == self.rotated(board),
    {
        let board = if self.top_left_corner == 1 {
            board.mirror()
        } else if self.top_left_corner == 2 {
            board.flip()
        } else if self.top_left_corner == 3 {
            board.rotate_left().rotate_left()
        } else {
            board
        };
        if self.mirror {
            board.mirror_diagonal()
        } else {
            board
        }
    }

    /// `rotate_bitboard` taken back: mirrored at the diagonal if asked to, then turned back.
    pub fn rotate_bitboard_back(&self, board: Bitboard) -> (r: Bitboard)
        ensures
            r == self.rotated_back(board),
    {
        let board = if self.mirror {
            board.mirror_diagonal()
        } else {
            board
        };
        if self.top_left_corner == 1 {
            board.mirror()
        } else if self.top_left_corner == 2 {
            board.flip()
        } else if self.top_left_corner == 3 {
            board.rotate_left().rotate_left()
        } else {
            board
        }
    }

    /// Rotates the boards of all four colors.
    pub fn rotate_state(&self, state: &mut GameState)
        ensures
            forall|c: int| 0 <= c < 4 ==> #[trigger] final(state).board[c] == self.rotated(old(state).board[c]),
            final(state).ply == old(state).ply,
            final(state).pieces_left == old(state).pieces_left,
            final(state).monomino_placed_last == old(state).monomino_placed_last,
            final(state).skipped == old(state).skipped,
            final(state).start_piece_type == old(state).start_piece_type,
            final(state).hash == old(state).hash,
    {
        let mut c: usize = 0;
        while c < 4
            invariant
                c <= 4,
                forall|k: int| 0 <= k < c ==> #[trigger] state.board[k] == self.rotated(old(state).board[k]),
                forall|k: int| c <= k < 4 ==> #[trigger] state.board[k] == old(state).board[k],
                state.ply == old(state).ply,
                state.pieces_left == old(state).pieces_left,
                state.monomino_placed_last == old(state).monomino_placed_last,
                state.skipped == old(state).skipped,
                state.start_piece_type == old(state).start_piece_type,
                state.hash == old(state).hash,
            decreases 4 - c,
        {
            let b = self.rotate_bitboard(state.board[c]);
            state.board[c] = b;
            c = c + 1;
        }
    }

    /// The action on the untransformed board that an action on the rotated board stands for.
    pub fn rotate_action(&self, action: Action) -> (r: Action)
        requires
            !action.is_skip_spec() ==> action.shape_spec() < 91,
        ensures
            action.is_skip_spec() ==> r == action,
            !action.is_skip_spec() ==> r == action_of_board(
                self.rotated_back(
                    Bitboard::with_piece_spec(
                        action.destination_spec() as u16,
                        action.shape_spec() as usize,
                    ),
                ),
            ),
    {
        if action.is_set() {
            let destination = action.get_destination();
            let shape = action.get_shape() as usize;
            Action::from_bitboard(self.rotate_bitboard_back(Bitboard::with_piece(destination, shape)))
        } else {
            action
        }
    }
}

/// The field of the 20x20 board in column `x` and row `y`.
pub open spec fn field_at(x: int, y: int) -> int {
    x + 21 * y
}

/// The field in the corner `corner` of the board (0 top left, 1 top right, 2 bottom left,
/// 3 bottom right).
pub open spec fn corner_field(corner: u8) -> int {
    if corner == 1 {
        field_at(19, 0)
    } else if corner == 2 {
        field_at(0, 19)
    } else if corner == 3 {
        field_at(19, 19)
    } else {
        field_at(0, 0)
    }
}

proof fn lemma_field_at(x: int, y: int)
    requires
        0 <= x < 20,
        0 <= y < 20,
    ensures
        is_valid_field(field_at(x, y)),
        field_at(x, y) % 21 == x,
        field_at(x, y) / 21 == y,
{
    assert((x + 21 * y) % 21 == x && (x + 21 * y) / 21 == y) by (nonlinear_arith)
        requires
            0 <= x < 20,
            0 <= y < 20,
    ;
}

/// Turning a board to corner `corner` reverses the columns when the corner is on the right
/// and the rows when it is at the bottom: the field in column `x` and row `y` of the turned
/// board is the field in column `19 - x` (right corners) or `x`, and row `19 - y` (bottom
/// corners) or `y`, of the board.
pub proof fn lemma_corner_turn_fields(corner: u8, b: Bitboard, x: int, y: int)
    requires
        0 <= x < 20,
        0 <= y < 20,
    ensures
        corner_turn(corner, b).has(field_at(x, y)) == b.has(
            field_at(
                if corner == 1 || corner == 3 { 19 - x } else { x },
                if corner == 2 || corner == 3 { 19 - y } else { y },
            ),
        ),
{
    let i: int = field_at(x, y);
    lemma_field_at(x, y);
    lemma_geometry_bits(b);
    if corner == 1 {
        assert(mirror_source(i) == field_at(19 - x, y));
    } else if corner == 2 {
        assert(flip_source(i) == field_at(x, 19 - y));
    } else if corner == 3 {
        // a quarter turn left takes field (x, y) from (19 - y, x)
        let d1 = diagonal_spec(b);
        let l1 = rotate_left_spec(b);
        let d2 = diagonal_spec(l1);
        lemma_geometry_bits(d1);
        lemma_geometry_bits(l1);
        lemma_geometry_bits(d2);
        lemma_field_at(x, 19 - y);
        lemma_field_at(19 - y, x);
        lemma_field_at(19 - y, 19 - x);
        lemma_field_at(19 - x, 19 - y);
        assert(flip_source(i) == field_at(x, 19 - y));
        assert(diagonal_source(field_at(x, 19 - y)) == field_at(19 - y, x));
        assert(flip_source(field_at(19 - y, x)) == field_at(19 - y, 19 - x));
        assert(diagonal_source(field_at(19 - y, 19 - x)) == field_at(19 - x, 19 - y));
        assert(l1.has(field_at(19 - y, x)) == b.has(field_at(19 - x, 19 - y)));
    }
}

/// After turning a board to its start corner, the board has the top left corner field
/// whenever it had any corner field; a rotation from that corner, mirrored at the diagonal or
/// not, keeps it there.
pub proof fn lemma_start_corner_to_top_left(b: Bitboard, mirror: bool)
    requires
        b.has(corner_field(0)) || b.has(corner_field(1)) || b.has(corner_field(2)) || b.has(
            corner_field(3),
        ),
    ensures
        b.has(corner_field(start_corner(b))),
        corner_turn(start_corner(b), b).has(corner_field(0)),
        (Rotation { mirror, top_left_corner: start_corner(b) }).rotated(b).has(corner_field(0)),
{
    lemma_corner_turn_fields(start_corner(b), b, 0, 0);
    lemma_field_at(0, 0);
    lemma_geometry_bits(corner_turn(start_corner(b), b));
    assert(diagonal_source(0) == 0);
}

/// Turning a board to corner `corner` brings that corner's field to the top left corner.
pub proof fn lemma_corner_to_top_left(corner: u8, b: Bitboard)
    requires
        corner <= 3,
    ensures
        corner_turn(corner, b).has(corner_field(0)) == b.has(corner_field(corner)),
{
    lemma_corner_turn_fields(corner, b, 0, 0);
}

/// Turning a board to one of the three other corners twice gives back its fields on the
/// 20x20 board; turning fields of the 20x20 board reads nothing else.
pub proof fn lemma_corner_turn_twice(corner: u8, b: Bitboard)
    requires
        1 <= corner <= 3,
    ensures
        corner_turn(corner, corner_turn(corner, b)) == on_board(b),
        corner_turn(corner, on_board(corner_turn(corner, b))) == on_board(b),
{
    lemma_mirrors_undo(b);
    let t = corner_turn(corner, b);
    lemma_maps_on_board(t);
    if corner == 3 {
        lemma_rotations(b);
        lemma_maps_on_board(rotate_left_spec(t));
        assert(rotate_left_spec(on_board(t)) == rotate_left_spec(t));
    }
}

/// A rotation taken back gives back the board: exactly when it does nothing, and otherwise the
/// board's fields on the 20x20 board.
pub proof fn lemma_rotation_roundtrip(r: Rotation, b: Bitboard)
    ensures
        r.rotated_back(r.rotated(b)) == if !r.mirror && !(1 <= r.top_left_corner <= 3) {
            b
        } else {
            on_board(b)
        },
{
    let c = r.top_left_corner;
    let t = corner_turn(c, b);
    if r.mirror {
        lemma_mirrors_undo(t);
        if 1 <= c <= 3 {
            lemma_corner_turn_twice(c, b);
        }
    } else if 1 <= c <= 3 {
        lemma_corner_turn_twice(c, b);
    }
}

/// Turns boards so that the color to move starts in the top left corner.
#[derive(Copy, Clone, Debug, PartialEq, Eq, Structural)]
pub struct BoardRotation {
    top_left_corner: u8,
}

impl BoardRotation {
    /// The corner that is turned to the top left.
    pub closed spec fn corner(self) -> u8 {
        self.top_left_corner
    }

    /// Turns all boards of the position so that the start corner of the color to move is the
    /// top left one, and returns the turn.
    pub fn rotate_state(state: &mut GameState) -> (r: BoardRotation)
        ensures
            r.corner() == start_corner(old(state).board[(old(state).ply % 4) as int]),
            forall|c: int| 0 <= c < 4 ==> #[trigger] final(state).board[c] == corner_turn(r.corner(), old(state).board[c]),
            final(state).ply == old(state).ply,
            final(state).pieces_left == old(state).pieces_left,
            final(state).monomino_placed_last == old(state).monomino_placed_last,
            final(state).skipped == old(state).skipped,
            final(state).start_piece_type == old(state).start_piece_type,
            final(state).hash == old(state).hash,
    {
        let board = state.board[state.get_current_color()];
        let top_left_corner: u8 = if board.check_bit(0) {
            0
        } else if board.check_bit(19) {
            1
        } else if board.check_bit(399) {
            2
        } else {
            3
        };
        let board_rotation = BoardRotation { top_left_corner };
        let mut c: usize = 0;
        while c < 4
            invariant
                c <= 4,
                forall|k: int| 0 <= k < c ==> #[trigger] state.board[k] == corner_turn(top_left_corner, old(state).board[k]),
                forall|k: int| c <= k < 4 ==> #[trigger] state.board[k] == old(state).board[k],
                state.ply == old(state).ply,
                state.pieces_left == old(state).pieces_left,
                state.monomino_placed_last == old(state).monomino_placed_last,
                state.skipped == old(state).skipped,
                state.start_piece_type == old(state).start_piece_type,
                state.hash == old(state).hash,
                board_rotation.top_left_corner == top_left_corner,
            decreases 4 - c,
        {
            let b = board_rotation.rotate_bitboard(state.board[c]);
            state.board[c] = b;
            c = c + 1;
        }
        board_rotation
    }

    /// The board turned to the rotation's corner.
    pub fn rotate_bitboard(&self, board: Bitboard) -> (r: Bitboard)
        ensures
            r == corner_turn(self.corner(), board),
    {
        if self.top_left_corner == 1 {
            board.mirror()
        } else if self.top_left_corner == 2 {
            board.flip()
        } else if self.top_left_corner == 3 {
            board.rotate_left().rotate_left()
        } else {
            board
        }
    }

    /// The turn taken back, which is the same turn.
    pub fn rotate_bitboard_back(&self, board: Bitboard) -> (r: Bitboard)
        ensures
            r == corner_turn(self.corner(), board),
    {
        if self.top_left_corner == 1 {
            board.mirror()
        } else if self.top_left_corner == 2 {
            board.flip()
        } else if self.top_left_corner == 3 {
            board.rotate_left().rotate_left()
        } else {
            board
        }
    }

    /// The action on the untransformed board that an action on the turned board stands for.
    pub fn rotate_action(&self, action: Action) -> (r: Action)
        requires
            !action.is_skip_spec() ==> action.shape_spec() < 91,
        ensures
            action.is_skip_spec() ==> r == action,
            !action.is_skip_spec() ==> r == action_of_board(
                corner_turn(
                    self.corner(),
                    Bitboard::with_piece_spec(
                        action.destination_spec() as u16,
                        action.shape_spec() as usize,
                    ),
                ),
            ),
    {
        if action.is_set() {
            let destination = action.get_destination();
            let shape = action.get_shape() as usize;
            Action::from_bitboard(self.rotate_bitboard_back(Bitboard::with_piece(destination, shape)))
        } else {
            action
        }
    }
}

/// Turning a board and turning it back gives back the board when no turn is needed, and its
/// fields on the 20x20 board otherwise.
pub proof fn lemma_board_rotation_roundtrip(r: BoardRotation, b: Bitboard)
    ensures
        corner_turn(r.corner(), corner_turn(r.corner(), b)) == if 1 <= r.corner() <= 3 {
            on_board(b)
        } else {
            b
        },
{
    if 1 <= r.corner() <= 3 {
        lemma_corner_turn_twice(r.corner(), b);
    }
}

} // verus!

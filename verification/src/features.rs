use vstd::prelude::*;
use crate::action::Action;
use crate::actionlist::ActionList;
use crate::bitboard::Bitboard;
use crate::evaluation::{next_to, corner_of};
use crate::gamestate::{GameState, occupied_spec};
use crate::geometry::{board_of, lemma_board_of};
use crate::heuristics::{
    placement_of, reach_spec, calculate_placement_fields, estimate_reachable_fields,
    calculate_leaks,
};
use crate::piece_type::{PieceType, shape_type_spec};

verus! {

broadcast use vstd::array::group_array_axioms;

/// The number of fields of the board for which `f` holds.
pub open spec fn count_where(f: spec_fn(int) -> bool) -> nat {
    board_of(f).count_ones_spec()
}

/// The fields taken by any color.
pub open spec fn occupied_board(s: GameState) -> Bitboard {
    board_of(|i: int| occupied_spec(s, i))
}

/// The fields at which color `c` could place a new piece (see `placement_of`).
pub open spec fn placement_board(s: GameState, c: int) -> Bitboard {
    board_of(|i: int| placement_of(s, occupied_board(s), c, i))
}

/// The fields color `c` can reach in four steps from its placement fields.
pub open spec fn reachable_board(s: GameState, c: int) -> Bitboard {
    reach_spec(
        placement_board(s, c),
        board_of(|i: int| next_to(s.board[c], i) || occupied_board(s).has(i)),
        4,
    )
}

/// The fields through which color `c` could leak into an area it cannot reach yet: reachable
/// fields next to a taken field and touching, corner to corner, a placement field that is
/// itself next to a taken field.
pub open spec fn leak_board(s: GameState, c: int) -> Bitboard {
    let occ = occupied_board(s);
    board_of(
        |i: int|
            reachable_board(s, c).has(i) && corner_of(
                board_of(
                    |j: int|
                        placement_board(s, c).has(j) && next_to(occ, j) && !(occ.has(j) || next_to(
                            s.board[c],
                            j,
                        )),
                ),
                i,
            ) && next_to(occ, i),
    )
}

/// The fields of the other colors, seen from color `c`.
pub open spec fn others_board(s: GameState, c: int) -> Bitboard {
    board_of(|j: int| occupied_board(s).has(j) && (0 <= j < 512 && !s.board[c].has(j)))
}

/// The reachable fields of color `c` that are next to, but not corner to corner with, a field
/// of another color.
pub open spec fn contact_board(s: GameState, c: int) -> Bitboard {
    let oth = others_board(s, c);
    board_of(
        |i: int|
            reachable_board(s, c).has(i) && next_to(oth, i) && (0 <= i < 512 && !corner_of(oth, i)),
    )
}

/// The boards of a position that the features of its moves are measured against.
pub struct HeuristicBoards {
    pub occupied: Bitboard,
    pub placement: [Bitboard; 4],
    pub reachable: [Bitboard; 4],
    pub leaks: [Bitboard; 4],
    pub contact: Bitboard,
}

impl HeuristicBoards {
    /// The boards are those of position `s`.
    pub open spec fn of(&self, s: GameState) -> bool {
        &&& self.occupied == occupied_board(s)
        &&& forall|c: int| 0 <= c < 4 ==> #[trigger] self.placement[c] == placement_board(s, c)
        &&& forall|c: int| 0 <= c < 4 ==> #[trigger] self.reachable[c] == reachable_board(s, c)
        &&& forall|c: int| 0 <= c < 4 ==> #[trigger] self.leaks[c] == leak_board(s, c)
        &&& self.contact == contact_board(s, (s.ply % 4) as int)
    }
}

/// The counts by which the heuristic judges a move: each is a number of fields.
pub struct PieceFeatures {
    /// The fields of the piece.
    pub size: u32,
    /// Fields of the piece on leaks of the own color.
    pub own_leaks: u32,
    /// Fields of the piece corner to corner with own leaks that no opponent reaches and no
    /// color takes.
    pub leak_corners: u32,
    /// Fields corner to corner with the piece's fields on leaks of the next color.
    pub next_leaks: u32,
    /// Fields corner to corner with the piece's fields on leaks of the color before.
    pub last_leaks: u32,
    /// Fields of the piece on placement fields of the opponents.
    pub blocks: u32,
    /// Fields of the piece corner to corner with placement fields of the opponents.
    pub block_corners: u32,
    /// New placement fields of the piece that the next color reaches.
    pub new_next: u32,
    /// New placement fields of the piece that the color before reaches.
    pub new_last: u32,
    /// New placement fields of the piece: free fields corner to corner with it and not next to
    /// it or to the own color.
    pub new_corners: u32,
    /// Fields of the piece on placement fields of the partner color.
    pub second_blocks: u32,
    /// Fields of the piece on contact fields of the own color (see `contact_board`).
    pub contact: u32,
}

/// The new placement fields that `piece` would give the color `c`.
pub open spec fn new_corner(s: GameState, c: int, piece: Bitboard, i: int) -> bool {
    corner_of(piece, i) && (0 <= i < 512 && !next_to(
        board_of(|j: int| piece.has(j) || s.board[c].has(j)),
        i,
    )) && (0 <= i < 512 && !occupied_board(s).has(i))
}

/// The features of move `a` of the color to move.
pub open spec fn features_spec(s: GameState, a: Action) -> PieceFeatures {
    let c = (s.ply % 4) as int;
    let n = (c + 1) % 4;
    let sc = (c + 2) % 4;
    let l = (c + 3) % 4;
    let piece = Bitboard::with_piece_spec(a.destination_spec() as u16, a.shape_spec() as usize);
    let occ = occupied_board(s);
    let opp_place = board_of(|j: int| placement_board(s, n).has(j) || placement_board(s, l).has(j));
    PieceFeatures {
        size: shape_type_spec(a.shape_spec() as usize).size_spec() as u32,
        own_leaks: count_where(|i: int| piece.has(i) && leak_board(s, c).has(i)) as u32,
        leak_corners: count_where(
            |i: int|
                piece.has(i) && corner_of(leak_board(s, c), i) && (0 <= i < 512 && !(
                reachable_board(s, n).has(i) || reachable_board(s, l).has(i) || occ.has(i))),
        ) as u32,
        next_leaks: count_where(
            |i: int| corner_of(board_of(|j: int| piece.has(j) && leak_board(s, n).has(j)), i),
        ) as u32,
        last_leaks: count_where(
            |i: int| corner_of(board_of(|j: int| piece.has(j) && leak_board(s, l).has(j)), i),
        ) as u32,
        blocks: count_where(|i: int| piece.has(i) && opp_place.has(i)) as u32,
        block_corners: count_where(|i: int| piece.has(i) && corner_of(opp_place, i)) as u32,
        new_next: count_where(
            |i: int| new_corner(s, c, piece, i) && reachable_board(s, n).has(i),
        ) as u32,
        new_last: count_where(
            |i: int| new_corner(s, c, piece, i) && reachable_board(s, l).has(i),
        ) as u32,
        new_corners: count_where(|i: int| new_corner(s, c, piece, i)) as u32,
        second_blocks: count_where(|i: int| piece.has(i) && placement_board(s, sc).has(i)) as u32,
        contact: count_where(|i: int| piece.has(i) && contact_board(s, c).has(i)) as u32,
    }
}

/// A move is seeded by the heuristic: from the third round on every move, before it only
/// pentominoes.
pub open spec fn seeded(s: GameState, a: Action) -> bool {
    !(s.ply < 8 && shape_type_spec(a.shape_spec() as usize).size_spec() < 5)
}

/// The moves of `acts` that the heuristic seeds, in order.
pub open spec fn seeded_actions(s: GameState, acts: Seq<Action>) -> Seq<Action>
    decreases acts.len(),
{
    if acts.len() == 0 {
        Seq::empty()
    } else {
        seeded_actions(s, acts.drop_last()) + if seeded(s, acts.last()) {
            seq![acts.last()]
        } else {
            Seq::<Action>::empty()
        }
    }
}

/// A board whose fields are those where `f` holds is the board of `f`.
proof fn lemma_board_eq(b: Bitboard, f: spec_fn(int) -> bool)
    requires
        forall|i: int| #[trigger] b.has(i) == f(i),
    ensures
        b == board_of(f),
        b.count_ones_spec() == count_where(f),
{
    lemma_board_of(f);
    assert forall|i: int| #[trigger] b.has(i) == board_of(f).has(i) by {
        if !(0 <= i < 512) {
            assert(!b.has(i));
        }
    }
    crate::bitboard::lemma_has_ext(b, board_of(f));
}

impl HeuristicBoards {
    /// The boards of the position (see `HeuristicBoards::of`).
    pub fn new(state: &GameState) -> (r: HeuristicBoards)
        ensures
            r.of(*state),
    {
        let s = *state;
        let color = state.get_current_color();
        let occupied = state.get_occupied_fields();
        proof {
            lemma_board_eq(occupied, |i: int| occupied_spec(s, i));
        }
        let placement = calculate_placement_fields(state, &occupied);
        proof {
            assert forall|c: int| 0 <= c < 4 implies #[trigger] placement[c] == placement_board(s, c) by {
                lemma_board_eq(placement[c], |i: int| placement_of(s, occupied_board(s), c, i));
            }
        }
        let reachable = estimate_reachable_fields(state, &placement, &occupied);
        proof {
            assert forall|c: int| 0 <= c < 4 implies #[trigger] reachable[c] == reachable_board(s, c) by {
                assert((|i: int| next_to(s.board[c], i) || occupied.has(i)) =~= (|i: int| next_to(
                    s.board[c],
                    i,
                ) || occupied_board(s).has(i)));
            }
        }
        let leaks = calculate_leaks(state, &placement, &reachable, &occupied);
        proof {
            assert forall|c: int| 0 <= c < 4 implies #[trigger] leaks[c] == leak_board(s, c) by {
                let occ = occupied_board(s);
                assert((|j: int|
                    placement[c].has(j) && next_to(occupied, j) && !(occupied.has(j) || next_to(
                        s.board[c],
                        j,
                    ))) =~= (|j: int|
                    placement_board(s, c).has(j) && next_to(occ, j) && !(occ.has(j) || next_to(
                        s.board[c],
                        j,
                    ))));
                lemma_board_eq(
                    leaks[c],
                    |i: int|
                        reachable_board(s, c).has(i) && corner_of(
                            board_of(
                                |j: int|
                                    placement_board(s, c).has(j) && next_to(occ, j) && !(occ.has(j)
                                        || next_to(s.board[c], j)),
                            ),
                            i,
                        ) && next_to(occ, i),
                );
            }
        }
        let own = state.board[color];
        let others = occupied.and(own.not());
        proof {
            lemma_board_eq(
                others,
                |j: int| occupied_board(s).has(j) && (0 <= j < 512 && !s.board[color as int].has(j)),
            );
        }
        let contact = reachable[color].and(others.neighbours()).and(
            others.diagonal_neighbours().not(),
        );
        proof {
            let oth = others_board(s, color as int);
            lemma_board_eq(
                contact,
                |i: int|
                    reachable_board(s, color as int).has(i) && next_to(oth, i) && (0 <= i < 512
                        && !corner_of(oth, i)),
            );
        }
        HeuristicBoards { occupied, placement, reachable, leaks, contact }
    }
}

/// The features of move `action` of the color to move (see `features_spec`).
pub fn piece_features(state: &GameState, boards: &HeuristicBoards, action: Action) -> (r:
    PieceFeatures)
    requires
        boards.of(*state),
        !action.is_skip_spec(),
        action.shape_spec() < 91,
    ensures
        r == features_spec(*state, action),
{
    let s = *state;
    let c = state.get_current_color();
    let n = (c + 1) % 4;
    let sc = (c + 2) % 4;
    let l = (c + 3) % 4;
    let shape = action.get_shape() as usize;
    let piece = Bitboard::with_piece(action.get_destination(), shape);
    let size = PieceType::from_shape(shape).piece_size() as u32;
    let occ = boards.occupied;
    let ghost ci = c as int;
    let ghost ni = n as int;
    let ghost li = l as int;
    let ghost sci = sc as int;
    let ghost opp_place = board_of(|j: int| placement_board(s, ni).has(j) || placement_board(s, li).has(j));

    let b1 = piece.and(boards.leaks[c]);
    let own_leaks = b1.count_ones();
    proof {
        lemma_board_eq(b1, |i: int| piece.has(i) && leak_board(s, ci).has(i));
    }
    let b2 = piece.and(boards.leaks[c].diagonal_neighbours()).and(
        boards.reachable[n].or(boards.reachable[l]).or(occ).not(),
    );
    let leak_corners = b2.count_ones();
    proof {
        lemma_board_eq(
            b2,
            |i: int|
                piece.has(i) && corner_of(leak_board(s, ci), i) && (0 <= i < 512 && !(
                reachable_board(s, ni).has(i) || reachable_board(s, li).has(i) || occ.has(i))),
        );
    }
    let x3 = piece.and(boards.leaks[n]);
    let b3 = x3.diagonal_neighbours();
    let next_leaks = b3.count_ones();
    proof {
        lemma_board_eq(x3, |j: int| piece.has(j) && leak_board(s, ni).has(j));
        lemma_board_eq(
            b3,
            |i: int| corner_of(board_of(|j: int| piece.has(j) && leak_board(s, ni).has(j)), i),
        );
    }
    let x4 = piece.and(boards.leaks[l]);
    let b4 = x4.diagonal_neighbours();
    let last_leaks = b4.count_ones();
    proof {
        lemma_board_eq(x4, |j: int| piece.has(j) && leak_board(s, li).has(j));
        lemma_board_eq(
            b4,
            |i: int| corner_of(board_of(|j: int| piece.has(j) && leak_board(s, li).has(j)), i),
        );
    }
    let opponent_placement = boards.placement[n].or(boards.placement[l]);
    proof {
        lemma_board_eq(
            opponent_placement,
            |j: int| placement_board(s, ni).has(j) || placement_board(s, li).has(j),
        );
    }
    let b5 = piece.and(opponent_placement);
    let blocks = b5.count_ones();
    proof {
        lemma_board_eq(b5, |i: int| piece.has(i) && opp_place.has(i));
    }
    let b6 = piece.and(opponent_placement.diagonal_neighbours());
    let block_corners = b6.count_ones();
    proof {
        lemma_board_eq(b6, |i: int| piece.has(i) && corner_of(opp_place, i));
    }
    let own_and_piece = piece.or(state.board[c]);
    proof {
        lemma_board_eq(own_and_piece, |j: int| piece.has(j) || s.board[ci].has(j));
    }
    let new_placement = piece.diagonal_neighbours().and(own_and_piece.neighbours().not()).and(
        occ.not(),
    );
    let new_corners = new_placement.count_ones();
    proof {
        lemma_board_eq(new_placement, |i: int| new_corner(s, ci, piece, i));
    }
    let b7 = new_placement.and(boards.reachable[n]);
    let new_next = b7.count_ones();
    proof {
        lemma_board_eq(b7, |i: int| new_corner(s, ci, piece, i) && reachable_board(s, ni).has(i));
    }
    let b8 = new_placement.and(boards.reachable[l]);
    let new_last = b8.count_ones();
    proof {
        lemma_board_eq(b8, |i: int| new_corner(s, ci, piece, i) && reachable_board(s, li).has(i));
    }
    let b10 = piece.and(boards.placement[sc]);
    let second_blocks = b10.count_ones();
    proof {
        lemma_board_eq(b10, |i: int| piece.has(i) && placement_board(s, sci).has(i));
    }
    let b11 = piece.and(boards.contact);
    let contact = b11.count_ones();
    proof {
        lemma_board_eq(b11, |i: int| piece.has(i) && contact_board(s, ci).has(i));
    }
    PieceFeatures {
        size,
        own_leaks,
        leak_corners,
        next_leaks,
        last_leaks,
        blocks,
        block_corners,
        new_next,
        new_last,
        new_corners,
        second_blocks,
        contact,
    }
}

/// The moves of `al` that the heuristic seeds (see `seeded`), each with its features.
pub fn heuristic_features(state: &GameState, al: &ActionList) -> (r: Vec<(Action, PieceFeatures)>)
    requires
        forall|k: int|
            0 <= k < al@.len() ==> !(#[trigger] al@[k]).is_skip_spec() && al@[k].shape_spec() < 91,
    ensures
        r@.len() == seeded_actions(*state, al@).len(),
        forall|k: int|
            0 <= k < r@.len() ==> (#[trigger] r@[k]).0 == seeded_actions(*state, al@)[k] && r@[k].1
                == features_spec(*state, r@[k].0),
{
    let boards = HeuristicBoards::new(state);
    let mut r: Vec<(Action, PieceFeatures)> = Vec::new();
    let n = al.size();
    let mut i: usize = 0;
    while i < n
        invariant
            n == al@.len(),
            i <= n,
            boards.of(*state),
            forall|k: int|
                0 <= k < al@.len() ==> !(#[trigger] al@[k]).is_skip_spec() && al@[k].shape_spec()
                    < 91,
            r@.len() == seeded_actions(*state, al@.take(i as int)).len(),
            forall|k: int|
                0 <= k < r@.len() ==> (#[trigger] r@[k]).0 == seeded_actions(
                    *state,
                    al@.take(i as int),
                )[k] && r@[k].1 == features_spec(*state, r@[k].0),
        decreases n - i,
    {
        let action = al.get(i);
        let ghost before = al@.take(i as int);
        proof {
            assert(al@.take(i + 1).drop_last() =~= before);
            assert(al@.take(i + 1).last() == action);
        }
        let size = PieceType::from_shape(action.get_shape() as usize).piece_size();
        if !(state.ply < 8 && size < 5) {
            let f = piece_features(state, &boards, action);
            r.push((action, f));
            proof {
                assert(seeded_actions(*state, al@.take(i + 1)) =~= seeded_actions(*state, before).push(
                    action,
                ));
            }
        } else {
            proof {
                assert(seeded_actions(*state, al@.take(i + 1)) =~= seeded_actions(*state, before));
            }
        }
        i = i + 1;
    }
    proof {
        assert(al@.take(n as int) =~= al@);
    }
    r
}

} // verus!

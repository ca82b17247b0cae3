use vstd::prelude::*;
use vstd::string::*;
use crate::actionlist::ActionList;
use crate::bitboard::Bitboard;
use crate::gamestate::GameState;
use crate::referee::must_skip;
use crate::text::parse_u128_spec;
use crate::xml_node::{
    XmlNode, text_equals, attribute_number, has_number, field_ok, fields_board, start_piece_of_name,
    parse_number, attribute_of, read_boards,
};

verus! {

broadcast use vstd::array::group_array_axioms;

/// The child that lists the pieces color `c` has not placed yet.
pub open spec fn shapes_child_name(c: int) -> Seq<char> {
    if c == 0 {
        "blueShapes"@
    } else if c == 1 {
        "yellowShapes"@
    } else if c == 2 {
        "redShapes"@
    } else {
        "greenShapes"@
    }
}

/// The number of the piece type whose game server name is `name`.
pub open spec fn piece_index_of_name(name: Seq<char>) -> Option<int> {
    if name == "MONO"@ {
        Some(0)
    } else if name == "DOMINO"@ {
        Some(1)
    } else if name == "TRIO_I"@ {
        Some(2)
    } else if name == "TRIO_L"@ {
        Some(3)
    } else if name == "TETRO_I"@ {
        Some(4)
    } else if name == "TETRO_L"@ {
        Some(5)
    } else if name == "TETRO_T"@ {
        Some(6)
    } else if name == "TETRO_O"@ {
        Some(7)
    } else if name == "TETRO_Z"@ {
        Some(8)
    } else if name == "PENTO_R"@ {
        Some(9)
    } else if name == "PENTO_I"@ {
        Some(10)
    } else if name == "PENTO_L"@ {
        Some(11)
    } else if name == "PENTO_S"@ {
        Some(12)
    } else if name == "PENTO_P"@ {
        Some(13)
    } else if name == "PENTO_T"@ {
        Some(14)
    } else if name == "PENTO_U"@ {
        Some(15)
    } else if name == "PENTO_V"@ {
        Some(16)
    } else if name == "PENTO_W"@ {
        Some(17)
    } else if name == "PENTO_X"@ {
        Some(18)
    } else if name == "PENTO_Y"@ {
        Some(19)
    } else if name == "PENTO_Z"@ {
        Some(20)
    } else {
        None
    }
}

/// The list node names piece type `t` in one of its children.
pub open spec fn lists_piece(list: XmlNode, t: int) -> bool {
    exists|k: int|
        0 <= k < list.children().len() && piece_index_of_name(#[trigger] list.children()[k].data@)
            == Some(t)
}

/// Piece type `t` is left to color `c` by the state node.
pub open spec fn piece_listed(node: XmlNode, t: int, c: int) -> bool {
    lists_piece(node.child(shapes_child_name(c))->0, t)
}

/// The node has the four lists of pieces left, and every entry names a piece type.
pub open spec fn shapes_ok(node: XmlNode) -> bool {
    forall|c: int|
        0 <= c < 4 ==> {
            &&& (#[trigger] node.child(shapes_child_name(c))) is Some
            &&& forall|k: int|
                0 <= k < node.child(shapes_child_name(c))->0.children().len()
                    ==> piece_index_of_name(
                    (#[trigger] node.child(shapes_child_name(c))->0.children()[k]).data@,
                ) is Some
        }
}

/// The colors whose entry is set, in order.
pub open spec fn active_colors(active: [bool; 4]) -> Seq<int> {
    (if active[0] { seq![0int] } else { Seq::empty() }) + (if active[1] {
        seq![1int]
    } else {
        Seq::empty()
    }) + (if active[2] { seq![2int] } else { Seq::empty() }) + (if active[3] {
        seq![3int]
    } else {
        Seq::empty()
    })
}

/// The position with color `i` to move in the same round.
pub open spec fn with_color(s: GameState, i: int) -> GameState {
    GameState { ply: ((s.ply / 4) * 4 + i) as u8, ..s }
}

/// The color to move that a state node names: color 3 when its `currentColorIndex` is 3;
/// after the first round the color at that index among the colors that could move; in the
/// first round the index itself, 3 at most.
pub open spec fn round_color(node: XmlNode, s: GameState, active: [bool; 4]) -> int {
    let idx = attribute_number(node, "currentColorIndex"@);
    if idx == 3 {
        3
    } else if s.ply > 3 {
        active_colors(active)[idx]
    } else if idx < 3 {
        idx
    } else {
        3
    }
}

/// The ply a state node names: four per round before the current one, plus the color to move.
pub open spec fn round_ply(node: XmlNode, s: GameState, active: [bool; 4]) -> int {
    (attribute_number(node, "round"@) - 1) * 4 + round_color(node, s, active)
}

/// The state node can be read against the position and the colors that could move: complete
/// board fields, the four lists of pieces left, a color index and a round number that give a
/// ply of the game, and a known start piece when that ply is 0.
pub open spec fn round_update_ok(node: XmlNode, s: GameState, active: [bool; 4]) -> bool {
    let idx = attribute_number(node, "currentColorIndex"@);
    &&& node.child("board"@) is Some
    &&& forall|k: int|
        0 <= k < node.child("board"@)->0.children().len() ==> field_ok(
            #[trigger] node.child("board"@)->0.children()[k],
        )
    &&& shapes_ok(node)
    &&& has_number(node, "currentColorIndex"@, usize::MAX + 1)
    &&& idx != 3 && s.ply > 3 ==> idx < active_colors(active).len()
    &&& has_number(node, "round"@, 256)
    &&& attribute_number(node, "round"@) >= 1
    &&& round_ply(node, s, active) <= 255
    &&& round_ply(node, s, active) == 0 ==> node.attribute("startPiece"@) is Some
        && start_piece_of_name(node.attribute("startPiece"@)->0) is Some
}

/// The number of the piece type whose name `name` is, which is one of the known names.
fn piece_index_from_name(name: &String) -> (r: usize)
    requires
        piece_index_of_name(name@) is Some,
    ensures
        r == piece_index_of_name(name@)->0,
{
    let n = name.as_str();
    if text_equals(n, "MONO") {
        0
    } else if text_equals(n, "DOMINO") {
        1
    } else if text_equals(n, "TRIO_I") {
        2
    } else if text_equals(n, "TRIO_L") {
        3
    } else if text_equals(n, "TETRO_I") {
        4
    } else if text_equals(n, "TETRO_L") {
        5
    } else if text_equals(n, "TETRO_T") {
        6
    } else if text_equals(n, "TETRO_O") {
        7
    } else if text_equals(n, "TETRO_Z") {
        8
    } else if text_equals(n, "PENTO_R") {
        9
    } else if text_equals(n, "PENTO_I") {
        10
    } else if text_equals(n, "PENTO_L") {
        11
    } else if text_equals(n, "PENTO_S") {
        12
    } else if text_equals(n, "PENTO_P") {
        13
    } else if text_equals(n, "PENTO_T") {
        14
    } else if text_equals(n, "PENTO_U") {
        15
    } else if text_equals(n, "PENTO_V") {
        16
    } else if text_equals(n, "PENTO_W") {
        17
    } else if text_equals(n, "PENTO_X") {
        18
    } else if text_equals(n, "PENTO_Y") {
        19
    } else {
        20
    }
}

/// The name of the list of pieces left of color `c`.
fn shapes_child(c: usize) -> (r: &'static str)
    requires
        c < 4,
    ensures
        r@ == shapes_child_name(c as int),
{
    if c == 0 {
        "blueShapes"
    } else if c == 1 {
        "yellowShapes"
    } else if c == 2 {
        "redShapes"
    } else {
        "greenShapes"
    }
}

/// A table of pieces left in which no piece is left to any color.
fn no_pieces() -> (r: [[bool; 4]; 21])
    ensures
        forall|t: int, c: int| 0 <= t < 21 && 0 <= c < 4 ==> !#[trigger] r[t][c],
{
    let row = [false, false, false, false];
    [row, row, row, row, row, row, row, row, row, row, row, row, row, row, row, row, row, row, row, row, row]
}

/// The table of pieces left that the state node lists.
fn read_pieces(node: &XmlNode) -> (r: [[bool; 4]; 21])
    requires
        shapes_ok(*node),
    ensures
        forall|t: int, c: int| 0 <= t < 21 && 0 <= c < 4 ==> #[trigger] r[t][c] == piece_listed(*node, t, c),
{
    let mut pieces = no_pieces();
    let mut c: usize = 0;
    while c < 4
        invariant
            c <= 4,
            shapes_ok(*node),
            forall|t: int, j: int| 0 <= t < 21 && 0 <= j < c ==> #[trigger] pieces[t][j] == piece_listed(*node, t, j),
            forall|t: int, j: int| 0 <= t < 21 && c <= j < 4 ==> !#[trigger] pieces[t][j],
        decreases 4 - c,
    {
        let ghost cc = c as int;
        proof {
            assert(node.child(shapes_child_name(cc)) is Some);
        }
        let list = match node.get_child(shapes_child(c)) {
            Some(l) => l,
            None => {
                proof {
                    assert(false);
                }
                return pieces;
            },
        };
        let entries = list.get_children();
        let ghost start = pieces;
        let mut k: usize = 0;
        while k < entries.len()
            invariant
                k <= entries@.len(),
                c < 4,
                cc == c,
                entries@ == list.children(),
                node.child(shapes_child_name(cc)) == Some(*list),
                shapes_ok(*node),
                forall|t: int, j: int| 0 <= t < 21 && 0 <= j < 4 && j != c ==> #[trigger] pieces[t][j] == start[t][j],
                forall|t: int|
                    0 <= t < 21 ==> #[trigger] pieces[t][c as int] == exists|m: int|
                        0 <= m < k && piece_index_of_name(#[trigger] entries@[m].data@) == Some(t),
            decreases entries@.len() - k,
        {
            proof {
                assert(piece_index_of_name(node.child(shapes_child_name(cc))->0.children()[k as int].data@) is Some);
            }
            let t = piece_index_from_name(&entries[k].data);
            let ghost before = pieces;
            let mut row = pieces[t];
            row[c] = true;
            pieces[t] = row;
            proof {
                assert forall|u: int|
                    0 <= u < 21 implies #[trigger] pieces[u][c as int] == exists|m: int|
                        0 <= m < k + 1 && piece_index_of_name(#[trigger] entries@[m].data@) == Some(u) by {
                    if u == t {
                        assert(piece_index_of_name(entries@[k as int].data@) == Some(u));
                    } else {
                        if exists|m: int| 0 <= m < k + 1 && piece_index_of_name(#[trigger] entries@[m].data@) == Some(u) {
                            let m = choose|m: int| 0 <= m < k + 1 && piece_index_of_name(#[trigger] entries@[m].data@) == Some(u);
                            assert(m < k);
                        }
                    }
                }
            }
            k = k + 1;
        }
        proof {
            assert forall|t: int| 0 <= t < 21 implies #[trigger] pieces[t][cc] == piece_listed(*node, t, cc) by {
            }
        }
        c = c + 1;
    }
    pieces
}

impl XmlNode {
    /// Reads a state node that names the round and the color to move: the boards, the pieces
    /// left, and after the first round which colors can still move (see
    /// `round_update_ok`). The ply becomes `round_ply`; at ply 0 the start piece type is set.
    pub fn update_state_by_round(&self, state: &mut GameState, active_players: &mut [bool; 4])
        requires
            round_update_ok(*self, *old(state), *old(active_players)),
        ensures
            ({
                let fields = self.child("board"@)->0.children();
                let s0 = *old(state);
                let s = *final(state);
                let idx = attribute_number(*self, "currentColorIndex"@);
                let mid = GameState { ply: s0.ply, start_piece_type: s0.start_piece_type, ..s };
                &&& forall|k: int| 0 <= k < 4 ==> #[trigger] s.board[k] == fields_board(fields, k, fields.len())
                &&& forall|t: int, c: int|
                    0 <= t < 21 && 0 <= c < 4 ==> #[trigger] s.pieces_left[t][c] == piece_listed(*self, t, c)
                &&& s.ply == round_ply(*self, s0, *old(active_players))
                &&& s.start_piece_type == if s.ply == 0 {
                    start_piece_of_name(self.attribute("startPiece"@)->0)->0
                } else {
                    s0.start_piece_type
                }
                &&& s.skipped == s0.skipped
                &&& s.monomino_placed_last == s0.monomino_placed_last
                &&& s.hash == s0.hash
                &&& forall|i: int|
                    0 <= i < 4 ==> #[trigger] final(active_players)[i] == if idx != 3 && s0.ply > 3 {
                        !must_skip(with_color(mid, i))
                    } else {
                        old(active_players)[i]
                    }
            }),
    {
        let ghost s0 = *state;
        let ghost a0 = *active_players;
        let board_node = match self.get_child("board") {
            Some(b) => b,
            None => {
                proof {
                    assert(false);
                }
                return;
            },
        };
        proof {
            assert forall|k: int| 0 <= k < board_node.children().len() implies field_ok(
                #[trigger] board_node.children()[k],
            ) by {
                assert(field_ok(self.child("board"@)->0.children()[k]));
            }
        }
        state.board = read_boards(board_node.get_children());
        state.pieces_left = read_pieces(self);
        let ghost mid = *state;
        let idx = parse_number(attribute_of(self, "currentColorIndex")) as usize;
        let color: usize = if idx == 3 {
            3
        } else if state.ply > 3 {
            let mut colors: Vec<usize> = Vec::new();
            let mut i: usize = 0;
            while i < 4
                invariant
                    i <= 4,
                    *active_players == a0,
                    colors@.len() == active_colors_upto(a0, i as int).len(),
                    forall|k: int| 0 <= k < colors@.len() ==> colors@[k] == active_colors_upto(a0, i as int)[k],
                decreases 4 - i,
            {
                if active_players[i] {
                    colors.push(i);
                }
                i = i + 1;
            }
            proof {
                reveal_with_fuel(active_colors_upto, 5);
                assert(active_colors_upto(a0, 4) =~= active_colors(a0));
            }
            let base = (state.ply / 4) * 4;
            let mut j: usize = 0;
            while j < 4
                invariant
                    j <= 4,
                    *state == mid,
                    base == (mid.ply / 4) * 4,
                    mid.ply > 3,
                    forall|k: int| 0 <= k < j ==> #[trigger] active_players[k] == !must_skip(with_color(mid, k)),
                decreases 4 - j,
            {
                let mut tmp = *state;
                tmp.ply = base + j as u8;
                let mut al = ActionList::default();
                tmp.get_possible_actions(&mut al);
                let moves = !al.get(0).is_skip();
                proof {
                    assert(tmp == with_color(mid, j as int));
                    if must_skip(tmp) {
                        assert(!moves);
                    } else {
                        assert(al@.len() > 0);
                        if !moves {
                            let a = al@[0];
                            assert(crate::gamestate::legal_move(tmp, a.destination_spec(), a.shape_spec()));
                        }
                    }
                }
                active_players[j] = moves;
                j = j + 1;
            }
            colors[idx]
        } else if idx < 3 {
            idx
        } else {
            3
        };
        let round = parse_number(attribute_of(self, "round")) as u8;
        state.ply = (round - 1) * 4 + color as u8;
        if state.ply == 0 {
            state.start_piece_type = crate::xml_node::start_piece_from_name(attribute_of(self, "startPiece"));
        }
    }
}

impl XmlNode {
    /// Reads a memento that names the round and the color to move: its `state` child (see
    /// `update_state_by_round`).
    pub fn as_memento_by_round(&self, state: &mut GameState, active_players: &mut [bool; 4])
        requires
            self.child("state"@) is Some,
            round_update_ok(self.child("state"@)->0, *old(state), *old(active_players)),
        ensures
            ({
                let node = self.child("state"@)->0;
                let fields = node.child("board"@)->0.children();
                let s0 = *old(state);
                let s = *final(state);
                let idx = attribute_number(node, "currentColorIndex"@);
                let mid = GameState { ply: s0.ply, start_piece_type: s0.start_piece_type, ..s };
                &&& forall|k: int| 0 <= k < 4 ==> #[trigger] s.board[k] == fields_board(fields, k, fields.len())
                &&& forall|t: int, c: int|
                    0 <= t < 21 && 0 <= c < 4 ==> #[trigger] s.pieces_left[t][c] == piece_listed(node, t, c)
                &&& s.ply == round_ply(node, s0, *old(active_players))
                &&& s.start_piece_type == if s.ply == 0 {
                    start_piece_of_name(node.attribute("startPiece"@)->0)->0
                } else {
                    s0.start_piece_type
                }
                &&& s.skipped == s0.skipped
                &&& s.monomino_placed_last == s0.monomino_placed_last
                &&& s.hash == s0.hash
                &&& forall|i: int|
                    0 <= i < 4 ==> #[trigger] final(active_players)[i] == if idx != 3 && s0.ply > 3 {
                        !must_skip(with_color(mid, i))
                    } else {
                        old(active_players)[i]
                    }
            }),
    {
        match self.get_child("state") {
            Some(node) => node.update_state_by_round(state, active_players),
            None => {
                proof {
                    assert(false);
                }
            },
        }
    }
}

/// The colors below `n` whose entry is set, in order.
pub open spec fn active_colors_upto(active: [bool; 4], n: int) -> Seq<int>
    decreases n,
{
    if n <= 0 {
        Seq::empty()
    } else {
        active_colors_upto(active, n - 1) + if active[n - 1] {
            seq![n - 1]
        } else {
            Seq::<int>::empty()
        }
    }
}

} // verus!

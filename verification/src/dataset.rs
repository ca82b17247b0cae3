use vstd::prelude::*;
use crate::action::{Action, SKIP_CODE};
use crate::bitboard::Bitboard;
use crate::gamestate::GameState;
use crate::hashing::{key, key_spec};
use crate::rotation::Rotation;
use crate::fen::{fields, spaced, split_fields, lemma_fields_spaced, lemma_parse_decimal};
use crate::text::{decimal, parse_u128_spec, chars_of, parse_u128, push_chars, push_str, decimal_chars};

verus! {

broadcast use vstd::array::group_array_axioms;

/// A 128-bit key made of two 64-bit keys of consecutive tables.
pub open spec fn wide_key_spec(table: u64, index: u64) -> u128 {
    ((key_spec(table, index) as u128) << 64u128) | (key_spec((table + 1) as u64, index) as u128)
}

pub fn wide_key(table: u64, index: u64) -> (r: u128)
    requires
        table < 100,
    ensures
        r == wide_key_spec(table, index),
{
    ((key(table, index) as u128) << 64u128) | (key(table + 1, index) as u128)
}

/// The key of field `bit` taken by color `color`.
pub open spec fn field_key(bit: int, color: int) -> u128 {
    wide_key_spec(8, (bit * 4 + color) as u64)
}

/// The keys of the set bits `0..n` of the board of color `color`, combined by xor.
pub open spec fn bits_hash(b: Bitboard, color: int, n: nat) -> u128
    decreases n,
{
    if n == 0 {
        0
    } else {
        bits_hash(b, color, (n - 1) as nat) ^ if b.has(n - 1) {
            field_key(n - 1, color)
        } else {
            0u128
        }
    }
}

/// The 128-bit hash of a position: the keys of its ply, its start piece type and every taken
/// field, combined by xor.
pub open spec fn u128_hash_spec(s: GameState) -> u128 {
    wide_key_spec(4, s.ply as u64) ^ wide_key_spec(6, s.start_piece_type.index_spec() as u64)
        ^ bits_hash(s.board[0], 0, 512) ^ bits_hash(s.board[1], 1, 512) ^ bits_hash(
        s.board[2],
        2,
        512,
    ) ^ bits_hash(s.board[3], 3, 512)
}

proof fn lemma_xor_assoc(a: u128, b: u128, c: u128)
    by (bit_vector)
    ensures
        (a ^ b) ^ c == a ^ (b ^ c),
        a ^ 0u128 == a,
{
}

proof fn lemma_bits_hash_stable(b: Bitboard, color: int, k: nat, n: nat)
    requires
        k <= n,
        forall|i: int| k <= i < n ==> !#[trigger] b.has(i),
    ensures
        bits_hash(b, color, n) == bits_hash(b, color, k),
    decreases n - k,
{
    if n > k {
        lemma_bits_hash_stable(b, color, k, (n - 1) as nat);
        lemma_xor_assoc(bits_hash(b, color, (n - 1) as nat), 0, 0);
    }
}

/// The keys of the taken fields of one board.
fn board_hash(board: Bitboard, color: usize) -> (r: u128)
    requires
        color < 4,
    ensures
        r == bits_hash(board, color as int, 512),
{
    let mut hash: u128 = 0;
    let mut board_copy = board;
    let ghost mut low: int = 0;
    while board_copy.not_empty()
        invariant
            0 <= low <= 512,
            color < 4,
            forall|i: int| #[trigger] board_copy.has(i) == (board.has(i) && i >= low),
            hash == bits_hash(board, color as int, low as nat),
        decreases 512 - low,
    {
        let bit_index = board_copy.trailing_zeros();
        proof {
            assert(board_copy.has(bit_index as int));
            assert forall|i: int| low <= i < bit_index implies !#[trigger] board.has(i) by {
                assert(!board_copy.has(i));
            }
            lemma_bits_hash_stable(board, color as int, low as nat, bit_index as nat);
        }
        let ghost before = board_copy;
        board_copy.flip_bit(bit_index);
        let k = wide_key(8, (bit_index as u64) * 4 + color as u64);
        proof {
            assert(bits_hash(board, color as int, (bit_index + 1) as nat) == hash ^ k);
        }
        hash = hash ^ k;
        proof {
            low = bit_index + 1;
            assert forall|i: int| #[trigger] board_copy.has(i) == (board.has(i) && i >= low) by {
                assert(board_copy.has(i) == (before.has(i) != (i == bit_index)));
                if low - 1 > i && i >= 0 {
                    if before.has(i) {
                        assert(i >= bit_index);
                    }
                }
            }
        }
    }
    proof {
        assert forall|i: int| low <= i < 512 implies !#[trigger] board.has(i) by {
            assert(!board_copy.has(i));
        }
        lemma_bits_hash_stable(board, color as int, low as nat, 512);
    }
    hash
}

/// The 128-bit hash of a position (see `u128_hash_spec`).
pub fn u128_hash(state: &GameState) -> (r: u128)
    ensures
        r == u128_hash_spec(*state),
{
    let mut hash = wide_key(4, state.ply as u64) ^ wide_key(6, state.start_piece_type.index() as u64);
    let mut color: usize = 0;
    while color < 4
        invariant
            color <= 4,
            hash == {
                let h0 = wide_key_spec(4, state.ply as u64) ^ wide_key_spec(
                    6,
                    state.start_piece_type.index_spec() as u64,
                );
                let h1 = if color > 0 { h0 ^ bits_hash(state.board[0], 0, 512) } else { h0 };
                let h2 = if color > 1 { h1 ^ bits_hash(state.board[1], 1, 512) } else { h1 };
                let h3 = if color > 2 { h2 ^ bits_hash(state.board[2], 2, 512) } else { h2 };
                if color > 3 { h3 ^ bits_hash(state.board[3], 3, 512) } else { h3 }
            },
        decreases 4 - color,
    {
        hash = hash ^ board_hash(state.board[color], color);
        color = color + 1;
    }
    hash
}

/// The rotation that turns the position so that the color to move starts in the top left
/// corner (see `Rotation::from_state`).
pub open spec fn rotation_of(s: GameState) -> Rotation {
    Rotation {
        mirror: crate::rotation::mirror_of(s.board[(s.ply % 4) as int]),
        top_left_corner: crate::rotation::start_corner(s.board[(s.ply % 4) as int]),
    }
}

/// The position with its boards turned by `rotation_of`.
pub open spec fn rotated_position(s: GameState) -> GameState {
    let rotation = rotation_of(s);
    GameState {
        board: [
            rotation.rotated(s.board[0]),
            rotation.rotated(s.board[1]),
            rotation.rotated(s.board[2]),
            rotation.rotated(s.board[3]),
        ],
        ..s
    }
}

/// The action on the position's own board that a stored action stands for.
pub open spec fn turned_back(s: GameState, a: Action) -> Action {
    crate::pieces::action_of_board(
        rotation_of(s).rotated_back(
            Bitboard::with_piece_spec(a.destination_spec() as u16, a.shape_spec() as usize),
        ),
    )
}

/// A table of the best actions found for positions, each turned so that the color to move
/// starts in the top left corner: for each slot the action, the position's 128-bit hash, its
/// ply and the depth of the search that found the action.
pub struct EvaluationCache {
    pub size: usize,
    pub actions: Vec<Action>,
    pub hashes: Vec<u128>,
    pub plies: Vec<u8>,
    pub depth: Vec<u8>,
}

/// The slot of a 128-bit hash in a table of `size` slots.
pub open spec fn wide_slot(hash: u128, size: usize) -> int {
    (hash % (size as u128)) as int
}

impl EvaluationCache {
    /// Every slot has an action, a hash, a ply and a depth; the stored actions are skips or
    /// one of the 91 shapes.
    pub open spec fn wf(&self) -> bool {
        &&& self.actions@.len() == self.size
        &&& self.hashes@.len() == self.size
        &&& self.plies@.len() == self.size
        &&& self.depth@.len() == self.size
        &&& forall|k: int|
            0 <= k < self.size && !(#[trigger] self.actions@[k]).is_skip_spec()
                ==> self.actions@[k].shape_spec() < 91
    }

    /// A table of `size` empty slots: skip, hash 0, ply 255, depth 0.
    pub fn with_size(size: usize) -> (r: EvaluationCache)
        ensures
            r.wf(),
            r.size == size,
            forall|k: int| 0 <= k < size ==> #[trigger] r.actions@[k] == Action(SKIP_CODE),
            forall|k: int| 0 <= k < size ==> #[trigger] r.hashes@[k] == 0,
            forall|k: int| 0 <= k < size ==> #[trigger] r.plies@[k] == 255,
            forall|k: int| 0 <= k < size ==> #[trigger] r.depth@[k] == 0,
    {
        let mut actions: Vec<Action> = Vec::new();
        let mut hashes: Vec<u128> = Vec::new();
        let mut plies: Vec<u8> = Vec::new();
        let mut depth: Vec<u8> = Vec::new();
        let mut i: usize = 0;
        while i < size
            invariant
                i <= size,
                actions@.len() == i,
                hashes@.len() == i,
                plies@.len() == i,
                depth@.len() == i,
                forall|k: int| 0 <= k < i ==> #[trigger] actions@[k] == Action(SKIP_CODE),
                forall|k: int| 0 <= k < i ==> #[trigger] hashes@[k] == 0,
                forall|k: int| 0 <= k < i ==> #[trigger] plies@[k] == 255,
                forall|k: int| 0 <= k < i ==> #[trigger] depth@[k] == 0,
            decreases size - i,
        {
            actions.push(Action::skip());
            hashes.push(0);
            plies.push(255);
            depth.push(0);
            i = i + 1;
        }
        EvaluationCache { size, actions, hashes, plies, depth }
    }

    /// Whether a search of `depth` at ply `ply` should replace the slot's entry: it comes from
    /// an earlier ply, or from the same ply and a deeper search.
    pub fn should_replace(&self, index: usize, depth: u8, ply: u8) -> (r: bool)
        requires
            self.wf(),
            index < self.size,
        ensures
            r == (self.plies@[index as int] > ply || (self.plies@[index as int] == ply
                && self.depth@[index as int] < depth)),
    {
        self.plies[index] > ply || (self.plies[index] == ply && self.depth[index] < depth)
    }

    /// The action stored for the position, turned back to the position's own orientation; none
    /// when its slot holds another hash or a skip.
    pub fn lookup(&self, state: &GameState) -> (r: Option<Action>)
        requires
            self.wf(),
            self.size > 0,
        ensures
            ({
                let hash = u128_hash_spec(rotated_position(*state));
                let k = wide_slot(hash, self.size);
                if self.hashes@[k] != hash || self.actions@[k].is_skip_spec() {
                    r is None
                } else {
                    r == Some(turned_back(*state, self.actions@[k]))
                }
            }),
    {
        let rotation = Rotation::from_state(state);
        let mut rotated_state = *state;
        rotation.rotate_state(&mut rotated_state);
        let hash = u128_hash(&rotated_state);
        let index = (hash % (self.size as u128)) as usize;
        let action = self.actions[index];
        proof {
            assert(rotated_state.board =~= rotated_position(*state).board);
            assert(rotated_state == rotated_position(*state));
        }
        if self.hashes[index] != hash || action.is_skip() {
            None
        } else {
            Some(rotation.rotate_action(action))
        }
    }

    /// Stores `action` found by a search of `depth` for the position when the slot should be
    /// replaced (see `should_replace`); skips are not stored. The stored action is the action
    /// turned by `Rotation::rotate_action`.
    pub fn insert(&mut self, state: &GameState, action: &Action, depth: u8)
        requires
            old(self).wf(),
            old(self).size > 0,
            !action.is_skip_spec() ==> action.shape_spec() < 91,
        ensures
            final(self).wf(),
            final(self).size == old(self).size,
            ({
                let hash = u128_hash_spec(rotated_position(*state));
                let k = wide_slot(hash, old(self).size);
                if !action.is_skip_spec() && (old(self).plies@[k] > state.ply || (old(self).plies@[k]
                    == state.ply && old(self).depth@[k] < depth)) {
                    &&& final(self).hashes@ == old(self).hashes@.update(k, hash)
                    &&& final(self).actions@ == old(self).actions@.update(k, turned_back(*state, *action))
                    &&& final(self).plies@ == old(self).plies@.update(k, state.ply)
                    &&& final(self).depth@ == old(self).depth@.update(k, depth)
                } else {
                    *final(self) == *old(self)
                }
            }),
    {
        if action.is_set() {
            let rotation = Rotation::from_state(state);
            let mut rotated_state = *state;
            rotation.rotate_state(&mut rotated_state);
            let hash = u128_hash(&rotated_state);
            let index = (hash % (self.size as u128)) as usize;
            proof {
                assert(rotated_state.board =~= rotated_position(*state).board);
                assert(rotated_state == rotated_position(*state));
            }
            if self.should_replace(index, depth, state.ply) {
                let stored = rotation.rotate_action(*action);
                proof {
                    crate::pieces::lemma_action_of_board_shape(
                        rotation.rotated_back(
                            Bitboard::with_piece_spec(
                                action.destination_spec() as u16,
                                action.shape_spec() as usize,
                            ),
                        ),
                    );
                }
                self.hashes.set(index, hash);
                self.actions.set(index, stored);
                self.plies.set(index, state.ply);
                self.depth.set(index, depth);
            }
        }
    }
}


/// A number text whose value fits in `bound`.
pub open spec fn number_below(t: Seq<char>, bound: u128) -> bool {
    parse_u128_spec(t) matches Some(v) && v <= bound
}

/// The entry that a saved line describes: a hash, an action code, a ply and a depth, the
/// first four parts of the line. None when the line has fewer parts, a part is no number of
/// its size, or the code is neither a skip nor one of the 91 shapes.
pub open spec fn line_entry(line: Seq<char>) -> Option<(u128, Action, u8, u8)> {
    let f = fields(line);
    if f.len() >= 4 && parse_u128_spec(f[0]) is Some && number_below(f[1], 65535) && number_below(
        f[2],
        255,
    ) && number_below(f[3], 255) && {
        let a = Action(parse_u128_spec(f[1])->0 as u16);
        a.is_skip_spec() || a.shape_spec() < 91
    } {
        Some(
            (
                parse_u128_spec(f[0])->0,
                Action(parse_u128_spec(f[1])->0 as u16),
                parse_u128_spec(f[2])->0 as u8,
                parse_u128_spec(f[3])->0 as u8,
            ),
        )
    } else {
        None
    }
}

/// The line of slot `k`: its hash, action code, ply and depth, separated by spaces.
pub open spec fn entry_line(c: EvaluationCache, k: int) -> Seq<char> {
    decimal(c.hashes@[k] as nat) + " "@ + decimal(c.actions@[k].0 as nat) + " "@ + decimal(
        c.plies@[k] as nat,
    ) + " "@ + decimal(c.depth@[k] as nat)
}

/// Slot `k` is kept in a saved table: it holds a hash other than 0 and an action.
pub open spec fn slot_kept(c: EvaluationCache, k: int) -> bool {
    c.hashes@[k] != 0 && !c.actions@[k].is_skip_spec()
}

/// The lines of the kept slots among the first `n`, each ended by a line break.
pub open spec fn saved_text(c: EvaluationCache, n: nat) -> Seq<char>
    decreases n,
{
    if n == 0 {
        Seq::empty()
    } else {
        saved_text(c, (n - 1) as nat) + if slot_kept(c, n - 1) {
            entry_line(c, n - 1) + "\n"@
        } else {
            Seq::empty()
        }
    }
}

/// The hash, action, ply and depth of slot `k`.
pub open spec fn slot_entry(c: EvaluationCache, k: int) -> (u128, Action, u8, u8) {
    (c.hashes@[k], c.actions@[k], c.plies@[k], c.depth@[k])
}

/// A slot of `this` goes into `loaded` by a merge: it is kept and `loaded` should replace its
/// own entry by it.
pub open spec fn merged_slot(this: EvaluationCache, loaded: EvaluationCache, k: int) -> bool {
    &&& slot_kept(this, k)
    &&& (loaded.plies@[k] > this.plies@[k] || (loaded.plies@[k] == this.plies@[k]
        && loaded.depth@[k] < this.depth@[k]))
}

/// Reading the line of a kept slot of a well-formed table gives back the slot's hash, action,
/// ply and depth.
pub proof fn lemma_line_roundtrip(c: EvaluationCache, k: int)
    requires
        c.wf(),
        0 <= k < c.size,
    ensures
        line_entry(entry_line(c, k)) == Some(slot_entry(c, k)),
{
    let h = c.hashes@[k];
    let a = c.actions@[k].0 as u128;
    let p = c.plies@[k] as u128;
    let d = c.depth@[k] as u128;
    let ns = seq![h, a, p, d];
    let n1 = seq![h];
    let n2 = seq![h, a];
    let n3 = seq![h, a, p];
    assert(n2.drop_last() =~= n1);
    assert(n3.drop_last() =~= n2);
    assert(ns.drop_last() =~= n3);
    reveal_strlit(" ");
    let t1 = decimal(h as nat);
    let t2 = t1.push(' ') + decimal(a as nat);
    let t3 = t2.push(' ') + decimal(p as nat);
    assert(spaced(n1) == t1);
    assert(spaced(n2) == t2);
    assert(spaced(n3) == t3);
    assert(spaced(ns) == t3.push(' ') + decimal(d as nat));
    assert(t3.push(' ') + decimal(d as nat) =~= entry_line(c, k));
    lemma_fields_spaced(ns);
    let f = fields(entry_line(c, k));
    assert(f[0] == decimal(ns[0] as nat));
    assert(f[1] == decimal(ns[1] as nat));
    assert(f[2] == decimal(ns[2] as nat));
    assert(f[3] == decimal(ns[3] as nat));
    lemma_parse_decimal(ns[0]);
    lemma_parse_decimal(ns[1]);
    lemma_parse_decimal(ns[2]);
    lemma_parse_decimal(ns[3]);
    assert(c.actions@[k].is_skip_spec() || c.actions@[k].shape_spec() < 91);
}

impl EvaluationCache {
    /// The entry that a saved line describes (see `line_entry`).
    pub fn parse_line(line: &str) -> (r: Option<(u128, Action, u8, u8)>)
        ensures
            r == line_entry(line@),
    {
        let chars = chars_of(line);
        let parts = split_fields(&chars);
        let ghost f = fields(line@);
        if parts.len() < 4 {
            return None;
        }
        proof {
            assert(parts@[0]@ == f[0]);
            assert(parts@[1]@ == f[1]);
            assert(parts@[2]@ == f[2]);
            assert(parts@[3]@ == f[3]);
        }
        let hash = match parse_u128(&parts[0]) {
            Some(h) => h,
            None => {
                return None;
            },
        };
        let code = match parse_u128(&parts[1]) {
            Some(v) => {
                if v > 65535 {
                    return None;
                }
                v as u16
            },
            None => {
                return None;
            },
        };
        let ply = match parse_u128(&parts[2]) {
            Some(v) => {
                if v > 255 {
                    return None;
                }
                v as u8
            },
            None => {
                return None;
            },
        };
        let depth = match parse_u128(&parts[3]) {
            Some(v) => {
                if v > 255 {
                    return None;
                }
                v as u8
            },
            None => {
                return None;
            },
        };
        let action = Action(code);
        if !action.is_skip() && action.get_shape() >= 91 {
            return None;
        }
        Some((hash, action, ply, depth))
    }

    /// Stores an entry read from a saved table in the slot of its hash.
    pub fn load_entry(&mut self, hash: u128, action: Action, ply: u8, depth: u8)
        requires
            old(self).wf(),
            old(self).size > 0,
            !action.is_skip_spec() ==> action.shape_spec() < 91,
        ensures
            final(self).wf(),
            final(self).size == old(self).size,
            ({
                let k = wide_slot(hash, old(self).size);
                &&& final(self).hashes@ == old(self).hashes@.update(k, hash)
                &&& final(self).actions@ == old(self).actions@.update(k, action)
                &&& final(self).plies@ == old(self).plies@.update(k, ply)
                &&& final(self).depth@ == old(self).depth@.update(k, depth)
            }),
    {
        let index = (hash % (self.size as u128)) as usize;
        self.hashes.set(index, hash);
        self.actions.set(index, action);
        self.plies.set(index, ply);
        self.depth.set(index, depth);
    }

    /// The text of the table as it is saved (see `saved_text`).
    pub fn saved_text(&self) -> (r: String)
        requires
            self.wf(),
        ensures
            r@ == saved_text(*self, self.size as nat),
    {
        let mut s = String::new();
        let mut i: usize = 0;
        while i < self.size
            invariant
                self.wf(),
                i <= self.size,
                s@ == saved_text(*self, i as nat),
            decreases self.size - i,
        {
            if self.hashes[i] != 0 && !self.actions[i].is_skip() {
                let ghost before = s@;
                push_chars(&mut s, &decimal_chars(self.hashes[i]));
                push_str(&mut s, " ");
                push_chars(&mut s, &decimal_chars(self.actions[i].0 as u128));
                push_str(&mut s, " ");
                push_chars(&mut s, &decimal_chars(self.plies[i] as u128));
                push_str(&mut s, " ");
                push_chars(&mut s, &decimal_chars(self.depth[i] as u128));
                push_str(&mut s, "\n");
                proof {
                    assert(s@ =~= before + (entry_line(*self, i as int) + "\n"@));
                }
            } else {
                proof {
                    assert(s@ =~= s@ + Seq::<char>::empty());
                }
            }
            i = i + 1;
        }
        s
    }

    /// Copies into `loaded` each slot of this table that holds a hash and an action and that
    /// `loaded` should replace by it (see `merged_slot`).
    pub fn merge_into(&self, loaded: &mut EvaluationCache)
        requires
            self.wf(),
            old(loaded).wf(),
            old(loaded).size == self.size,
        ensures
            final(loaded).wf(),
            final(loaded).size == self.size,
            forall|k: int|
                0 <= k < self.size ==> #[trigger] slot_entry(*final(loaded), k) == if merged_slot(
                    *self,
                    *old(loaded),
                    k,
                ) {
                    slot_entry(*self, k)
                } else {
                    slot_entry(*old(loaded), k)
                },
    {
        let ghost start = *loaded;
        let mut i: usize = 0;
        while i < self.size
            invariant
                self.wf(),
                loaded.wf(),
                loaded.size == self.size,
                start.wf(),
                start.size == self.size,
                i <= self.size,
                forall|k: int|
                    i <= k < self.size ==> #[trigger] slot_entry(*loaded, k) == slot_entry(
                        start,
                        k,
                    ),
                forall|k: int|
                    0 <= k < i ==> #[trigger] slot_entry(*loaded, k) == if merged_slot(
                        *self,
                        start,
                        k,
                    ) {
                        slot_entry(*self, k)
                    } else {
                        slot_entry(start, k)
                    },
            decreases self.size - i,
        {
            let ghost before = *loaded;
            proof {
                assert(slot_entry(*loaded, i as int) == slot_entry(start, i as int));
            }
            if self.hashes[i] != 0 && !self.actions[i].is_skip() && loaded.should_replace(
                i,
                self.depth[i],
                self.plies[i],
            ) {
                loaded.hashes.set(i, self.hashes[i]);
                loaded.actions.set(i, self.actions[i]);
                loaded.plies.set(i, self.plies[i]);
                loaded.depth.set(i, self.depth[i]);
            }
            proof {
                assert forall|k: int| 0 <= k < self.size && k != i implies #[trigger] slot_entry(
                    *loaded,
                    k,
                ) == slot_entry(before, k) by {}
                assert(slot_entry(*loaded, i as int) == if merged_slot(*self, start, i as int) {
                    slot_entry(*self, i as int)
                } else {
                    slot_entry(start, i as int)
                });
            }
            i = i + 1;
        }
    }
}

} // verus!

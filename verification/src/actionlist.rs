use vstd::prelude::*;
use crate::action::{Action, set_code};
use crate::bitboard::Bitboard;
use crate::bits::{u128_bit, u128_trailing_zeros, lemma_u128_single, lemma_u128_bitwise};

verus! {

/// The initial capacity of an action list; more actions than this are legal in no position.
pub const MAX_ACTIONS: usize = 1300;

/// The order in which `append` adds destinations: the words from the highest to the lowest,
/// and in each word the bits upwards.
pub open spec fn append_key(destination: int) -> int {
    (3 - destination / 128) * 128 + destination % 128
}

/// A list of actions.
pub struct ActionList {
    actions: Vec<Action>,
}

impl View for ActionList {
    type V = Seq<Action>;

    closed spec fn view(&self) -> Seq<Action> {
        self.actions@
    }
}

impl Default for ActionList {
    fn default() -> (r: Self)
        ensures
            r@ == Seq::<Action>::empty(),
    {
        ActionList { actions: Vec::with_capacity(MAX_ACTIONS) }
    }
}

impl Clone for ActionList {
    fn clone(&self) -> (r: Self)
        ensures
            r@ == self@,
    {
        ActionList { actions: self.actions.clone() }
    }
}

impl ActionList {
    /// The number of actions in the list.
    pub fn size(&self) -> (r: usize)
        ensures
            r == self@.len(),
    {
        self.actions.len()
    }

    /// The action at `index`.
    pub fn get(&self, index: usize) -> (r: Action)
        requires
            index < self@.len(),
        ensures
            r == self@[index as int],
    {
        self.actions[index]
    }

    pub fn push(&mut self, action: Action)
        ensures
            final(self)@ == old(self)@.push(action),
    {
        self.actions.push(action);
    }

    /// Exchanges the actions at `x` and `y`.
    pub fn swap(&mut self, x: usize, y: usize)
        requires
            x < old(self)@.len(),
            y < old(self)@.len(),
        ensures
            final(self)@ == old(self)@.update(x as int, old(self)@[y as int]).update(
                y as int,
                old(self)@[x as int],
            ),
    {
        let tmp = self.actions[x];
        let other = self.actions[y];
        self.actions.set(x, other);
        self.actions.set(y, tmp);
    }

    pub fn clear(&mut self)
        ensures
            final(self)@ == Seq::<Action>::empty(),
    {
        self.actions.clear();
    }

    /// Keeps the first `size` actions.
    pub fn truncate(&mut self, size: usize)
        requires
            size <= old(self)@.len(),
        ensures
            final(self)@ == old(self)@.subrange(0, size as int),
    {
        self.actions.truncate(size);
    }

    /// Adds the bits of one word, from the lowest up, as destinations `base + bit` of `shape`.
    fn append_word(&mut self, word: u128, base: u16, shape: u16)
        requires
            base == 0 || base == 128 || base == 256 || base == 384,
            shape < 128,
        ensures
            final(self)@.subrange(0, old(self)@.len() as int) == old(self)@,
            final(self)@.len() >= old(self)@.len(),
            forall|k: int|
                old(self)@.len() <= k < final(self)@.len() ==> #[trigger] final(self)@[k].shape_spec() == shape
                    && u128_bit(word, final(self)@[k].destination_spec() - base)
                    && base <= final(self)@[k].destination_spec() < base + 128,
            forall|j: int|
                #[trigger] u128_bit(word, j) ==> exists|k: int|
                    old(self)@.len() <= k < final(self)@.len() && #[trigger] final(self)@[k].destination_spec() == base + j,
            forall|k1: int, k2: int|
                old(self)@.len() <= k1 < k2 < final(self)@.len() ==> #[trigger] final(self)@[k1].destination_spec()
                    < #[trigger] final(self)@[k2].destination_spec(),
    {
        let ghost old_list = self@;
        let ghost n = old_list.len();
        let mut w = word;
        proof {
            lemma_u128_single(0);
        }
        while w != 0
            invariant
                base == 0 || base == 128 || base == 256 || base == 384,
                shape < 128,
                n == old_list.len(),
                self@.len() >= n,
                self@.subrange(0, n as int) == old_list,
                forall|j: int| #[trigger] u128_bit(w, j) ==> u128_bit(word, j),
                forall|k: int|
                    n <= k < self@.len() ==> #[trigger] self@[k].shape_spec() == shape && u128_bit(
                        word,
                        self@[k].destination_spec() - base,
                    ) && base <= self@[k].destination_spec() < base + 128,
                forall|j: int|
                    #[trigger] u128_bit(word, j) ==> u128_bit(w, j) || exists|k: int|
                        n <= k < self@.len() && #[trigger] self@[k].destination_spec() == base + j,
                forall|k1: int, k2: int|
                    n <= k1 < k2 < self@.len() ==> #[trigger] self@[k1].destination_spec()
                        < #[trigger] self@[k2].destination_spec(),
                forall|k: int, j: int|
                    n <= k < self@.len() && #[trigger] u128_bit(w, j) ==> #[trigger] self@[k].destination_spec() < base + j,
            decreases w,
        {
            let d = u128_trailing_zeros(w);
            let bit = 1u128 << (d as u128);
            let prev = w;
            w = w ^ bit;
            proof {
                lemma_u128_single(d as u128);
                lemma_u128_bitwise(prev, bit);
                lemma_clear_smaller(prev, d as u128);
            }
            let ghost before = self@;
            let a = Action::set(d as u16 + base, shape);
            self.actions.push(a);
            proof {
                assert(self@ == before.push(a));
                assert(self@.subrange(0, n as int) == before.subrange(0, n as int));
                assert forall|j: int| #[trigger] u128_bit(word, j) implies u128_bit(w, j) || exists|k: int|
                    n <= k < self@.len() && #[trigger] self@[k].destination_spec() == base + j by {
                    if j == d {
                        assert(self@[self@.len() - 1].destination_spec() == base + j);
                    } else if !u128_bit(w, j) {
                        assert(!u128_bit(prev, j));
                        let k = choose|k: int| n <= k < before.len() && #[trigger] before[k].destination_spec() == base + j;
                        assert(self@[k] == before[k]);
                    }
                }
                assert forall|k: int, j: int|
                    n <= k < self@.len() && #[trigger] u128_bit(w, j) implies #[trigger] self@[k].destination_spec() < base + j by {
                    if k < before.len() {
                        assert(self@[k] == before[k]);
                        assert(u128_bit(prev, j));
                    } else {
                        assert(u128_bit(prev, j));
                        assert(j != d);
                    }
                }
                assert forall|k1: int, k2: int|
                    n <= k1 < k2 < self@.len() implies #[trigger] self@[k1].destination_spec()
                        < #[trigger] self@[k2].destination_spec() by {
                    if k2 == self@.len() - 1 {
                        assert(self@[k1] == before[k1]);
                        assert(u128_bit(prev, d as int));
                    } else {
                        assert(self@[k1] == before[k1]);
                        assert(self@[k2] == before[k2]);
                    }
                }
            }
        }
    }

    /// Adds the bits of one word, from the lowest up, as actions `Action::set(base + bit, shape)`
    /// of a shape of any number.
    fn append_word_any(&mut self, word: u128, base: u16, shape: u16)
        requires
            base == 0 || base == 128 || base == 256 || base == 384,
        ensures
            final(self)@.subrange(0, old(self)@.len() as int) == old(self)@,
            final(self)@.len() >= old(self)@.len(),
            forall|j: int|
                #[trigger] u128_bit(word, j) ==> exists|k: int|
                    old(self)@.len() <= k < final(self)@.len() && #[trigger] final(self)@[k] == Action(
                        set_code((base + j) as u16, shape),
                    ),
    {
        let ghost old_list = self@;
        let ghost n = old_list.len();
        let mut w = word;
        proof {
            lemma_u128_single(0);
        }
        while w != 0
            invariant
                base == 0 || base == 128 || base == 256 || base == 384,
                n == old_list.len(),
                self@.len() >= n,
                self@.subrange(0, n as int) == old_list,
                forall|j: int| #[trigger] u128_bit(w, j) ==> u128_bit(word, j),
                forall|j: int|
                    #[trigger] u128_bit(word, j) ==> u128_bit(w, j) || exists|k: int|
                        n <= k < self@.len() && #[trigger] self@[k] == Action(set_code((base + j) as u16, shape)),
            decreases w,
        {
            let d = u128_trailing_zeros(w);
            let bit = 1u128 << (d as u128);
            let prev = w;
            w = w ^ bit;
            proof {
                lemma_u128_single(d as u128);
                lemma_u128_bitwise(prev, bit);
                lemma_clear_smaller(prev, d as u128);
            }
            let ghost before = self@;
            let a = Action::set(d as u16 + base, shape);
            self.actions.push(a);
            proof {
                assert(self@ == before.push(a));
                assert(self@.subrange(0, n as int) == before.subrange(0, n as int));
                assert(u128_bit(word, d as int));
                assert(((base + d) as u16) == d as u16 + base);
                assert forall|j: int| #[trigger] u128_bit(word, j) implies u128_bit(w, j) || exists|k: int|
                    n <= k < self@.len() && #[trigger] self@[k] == Action(set_code((base + j) as u16, shape)) by {
                    if j == d {
                        assert(self@[self@.len() - 1] == Action(set_code((base + j) as u16, shape)));
                    } else if !u128_bit(w, j) {
                        assert(!u128_bit(prev, j));
                        let k = choose|k: int| n <= k < before.len() && #[trigger] before[k] == Action(set_code((base + j) as u16, shape));
                        assert(self@[k] == before[k]);
                    }
                }
            }
        }
    }

    /// Adds an action `Action::set(d, shape)` for every set bit `d` of `destinations`: first the
    /// bits of the highest word (fields 384 and up), then those of the lower words, each word from
    /// its lowest bit up. For a shape below 128 the actions have that shape and destination.
    pub fn append(&mut self, destinations: Bitboard, shape: u16)
        ensures
            final(self)@.subrange(0, old(self)@.len() as int) == old(self)@,
            final(self)@.len() >= old(self)@.len(),
            shape < 128 ==> forall|k: int|
                old(self)@.len() <= k < final(self)@.len() ==> #[trigger] final(self)@[k].shape_spec()
                    == shape && destinations.has(final(self)@[k].destination_spec()),
            shape < 128 ==> forall|d: int|
                #[trigger] destinations.has(d) ==> exists|k: int|
                    old(self)@.len() <= k < final(self)@.len() && #[trigger] final(self)@[k].destination_spec() == d,
            shape < 128 ==> forall|k1: int, k2: int|
                old(self)@.len() <= k1 < k2 < final(self)@.len() ==> append_key(
                    #[trigger] final(self)@[k1].destination_spec(),
                ) < append_key(#[trigger] final(self)@[k2].destination_spec()),
            shape >= 128 ==> forall|d: int|
                #[trigger] destinations.has(d) ==> exists|k: int|
                    old(self)@.len() <= k < final(self)@.len() && #[trigger] final(self)@[k] == Action(set_code(d as u16, shape)),
    {
        if shape < 128 {
            let ghost s0 = self@;
            self.append_shape(destinations, shape);
            proof {
                assert forall|k: int| s0.len() <= k < self@.len() implies #[trigger] self@[k].shape_spec() == shape
                    && destinations.has(self@[k].destination_spec()) by {
                }
            }
        } else {
            let ghost s0 = self@;
            self.append_word_any(destinations.0, 384, shape);
            let ghost s1 = self@;
            self.append_word_any(destinations.1, 256, shape);
            let ghost s2 = self@;
            self.append_word_any(destinations.2, 128, shape);
            let ghost s3 = self@;
            self.append_word_any(destinations.3, 0, shape);
            let ghost s4 = self@;
            proof {
                assert(s4.subrange(0, s3.len() as int) == s3);
                assert(s3.subrange(0, s2.len() as int) == s2);
                assert(s2.subrange(0, s1.len() as int) == s1);
                assert(s1.subrange(0, s0.len() as int) == s0);
                assert forall|k: int| s0.len() <= k < s1.len() implies #[trigger] s4[k] == s1[k] by {
                    assert(s2[k] == s1[k]);
                    assert(s3[k] == s2[k]);
                    assert(s4[k] == s3[k]);
                }
                assert forall|k: int| s1.len() <= k < s2.len() implies #[trigger] s4[k] == s2[k] by {
                    assert(s3[k] == s2[k]);
                    assert(s4[k] == s3[k]);
                }
                assert forall|k: int| s2.len() <= k < s3.len() implies #[trigger] s4[k] == s3[k] by {
                    assert(s4[k] == s3[k]);
                }
                assert(s4.subrange(0, s0.len() as int) =~= s0) by {
                    assert forall|k: int| 0 <= k < s0.len() implies s4[k] == s0[k] by {
                        assert(s1[k] == s0[k]);
                        assert(s2[k] == s1[k]);
                        assert(s3[k] == s2[k]);
                        assert(s4[k] == s3[k]);
                    }
                }
                assert forall|d: int| #[trigger] destinations.has(d) implies exists|k: int|
                    s0.len() <= k < s4.len() && #[trigger] s4[k] == Action(set_code(d as u16, shape)) by {
                    if 384 <= d < 512 {
                        assert(u128_bit(destinations.0, d - 384));
                        let k = choose|k: int| s0.len() <= k < s1.len() && #[trigger] s1[k] == Action(set_code((384 + (d - 384)) as u16, shape));
                        assert(s4[k] == s1[k]);
                    } else if 256 <= d < 384 {
                        assert(u128_bit(destinations.1, d - 256));
                        let k = choose|k: int| s1.len() <= k < s2.len() && #[trigger] s2[k] == Action(set_code((256 + (d - 256)) as u16, shape));
                        assert(s4[k] == s2[k]);
                    } else if 128 <= d < 256 {
                        assert(u128_bit(destinations.2, d - 128));
                        let k = choose|k: int| s2.len() <= k < s3.len() && #[trigger] s3[k] == Action(set_code((128 + (d - 128)) as u16, shape));
                        assert(s4[k] == s3[k]);
                    } else {
                        assert(u128_bit(destinations.3, d));
                        let k = choose|k: int| s3.len() <= k < s4.len() && #[trigger] s4[k] == Action(set_code((0 + d) as u16, shape));
                    }
                }
            }
        }
    }

    /// Adds an action of `shape` (below 128) for every set bit of `destinations`: first the bits
    /// of the highest word (fields 384 and up), then those of the lower words, each word from its
    /// lowest bit up.
    fn append_shape(&mut self, destinations: Bitboard, shape: u16)
        requires
            shape < 128,
        ensures
            final(self)@.subrange(0, old(self)@.len() as int) == old(self)@,
            final(self)@.len() >= old(self)@.len(),
            forall|k: int|
                old(self)@.len() <= k < final(self)@.len() ==> #[trigger] final(self)@[k].shape_spec()
                    == shape && destinations.has(final(self)@[k].destination_spec()),
            forall|d: int|
                #[trigger] destinations.has(d) ==> exists|k: int|
                    old(self)@.len() <= k < final(self)@.len() && #[trigger] final(self)@[k].destination_spec() == d,
            forall|k1: int, k2: int|
                old(self)@.len() <= k1 < k2 < final(self)@.len() ==> append_key(
                    #[trigger] final(self)@[k1].destination_spec(),
                ) < append_key(#[trigger] final(self)@[k2].destination_spec()),
    {
        let ghost s0 = self@;
        self.append_word(destinations.0, 384, shape);
        let ghost s1 = self@;
        self.append_word(destinations.1, 256, shape);
        let ghost s2 = self@;
        self.append_word(destinations.2, 128, shape);
        let ghost s3 = self@;
        self.append_word(destinations.3, 0, shape);
        let ghost s4 = self@;
        proof {
            assert(s4.subrange(0, s3.len() as int) == s3);
            assert(s3.subrange(0, s2.len() as int) == s2);
            assert(s2.subrange(0, s1.len() as int) == s1);
            assert(s1.subrange(0, s0.len() as int) == s0);
            assert forall|k: int| s0.len() <= k < s1.len() implies #[trigger] s4[k] == s1[k] by {
                assert(s2[k] == s1[k]);
                assert(s3[k] == s2[k]);
                assert(s4[k] == s3[k]);
            }
            assert forall|k: int| s1.len() <= k < s2.len() implies #[trigger] s4[k] == s2[k] by {
                assert(s3[k] == s2[k]);
                assert(s4[k] == s3[k]);
            }
            assert forall|k: int| s2.len() <= k < s3.len() implies #[trigger] s4[k] == s3[k] by {
                assert(s4[k] == s3[k]);
            }
            assert(s4.subrange(0, s0.len() as int) =~= s0) by {
                assert forall|k: int| 0 <= k < s0.len() implies s4[k] == s0[k] by {
                    assert(s1[k] == s0[k]);
                    assert(s2[k] == s1[k]);
                    assert(s3[k] == s2[k]);
                    assert(s4[k] == s3[k]);
                }
            }
            assert forall|k: int|
                s0.len() <= k < s4.len() implies #[trigger] s4[k].shape_spec() == shape
                    && destinations.has(s4[k].destination_spec()) by {
                if k < s1.len() {
                    assert(s4[k] == s1[k]);
                } else if k < s2.len() {
                    assert(s4[k] == s2[k]);
                } else if k < s3.len() {
                    assert(s4[k] == s3[k]);
                }
            }
            assert forall|d: int| #[trigger] destinations.has(d) implies exists|k: int|
                s0.len() <= k < s4.len() && #[trigger] s4[k].destination_spec() == d by {
                if 384 <= d < 512 {
                    assert(u128_bit(destinations.0, d - 384));
                    let k = choose|k: int| s0.len() <= k < s1.len() && #[trigger] s1[k].destination_spec() == 384 + (d - 384);
                    assert(s4[k] == s1[k]);
                } else if 256 <= d < 384 {
                    assert(u128_bit(destinations.1, d - 256));
                    let k = choose|k: int| s1.len() <= k < s2.len() && #[trigger] s2[k].destination_spec() == 256 + (d - 256);
                    assert(s4[k] == s2[k]);
                } else if 128 <= d < 256 {
                    assert(u128_bit(destinations.2, d - 128));
                    let k = choose|k: int| s2.len() <= k < s3.len() && #[trigger] s3[k].destination_spec() == 128 + (d - 128);
                    assert(s4[k] == s3[k]);
                } else {
                    assert(u128_bit(destinations.3, d));
                    let k = choose|k: int| s3.len() <= k < s4.len() && #[trigger] s4[k].destination_spec() == 0 + d;
                }
            }
            assert forall|k1: int, k2: int|
                s0.len() <= k1 < k2 < s4.len() implies append_key(#[trigger] s4[k1].destination_spec())
                    < append_key(#[trigger] s4[k2].destination_spec()) by {
                let d1 = s4[k1].destination_spec();
                let d2 = s4[k2].destination_spec();
                lemma_append_key(d1);
                lemma_append_key(d2);
                if k1 < s1.len() {
                    assert(s4[k1] == s1[k1] && s1[k1].shape_spec() == shape);
                    assert(384 <= d1 < 512);
                } else if k1 < s2.len() {
                    assert(s4[k1] == s2[k1] && s2[k1].shape_spec() == shape);
                    assert(256 <= d1 < 384);
                } else if k1 < s3.len() {
                    assert(s4[k1] == s3[k1] && s3[k1].shape_spec() == shape);
                    assert(128 <= d1 < 256);
                } else {
                    assert(s4[k1].shape_spec() == shape);
                    assert(0 <= d1 < 128);
                }
                if k2 < s1.len() {
                    assert(s4[k2] == s1[k2] && s1[k2].shape_spec() == shape);
                    assert(384 <= d2 < 512);
                    assert(d1 < d2);
                } else if k2 < s2.len() {
                    assert(s4[k2] == s2[k2] && s2[k2].shape_spec() == shape);
                    assert(256 <= d2 < 384);
                    if k1 >= s1.len() {
                        assert(s4[k1] == s2[k1]);
                        assert(d1 < d2);
                    }
                } else if k2 < s3.len() {
                    assert(s4[k2] == s3[k2] && s3[k2].shape_spec() == shape);
                    assert(128 <= d2 < 256);
                    if k1 >= s2.len() {
                        assert(s4[k1] == s3[k1]);
                        assert(d1 < d2);
                    }
                } else {
                    assert(s4[k2].shape_spec() == shape);
                    assert(0 <= d2 < 128);
                    if k1 >= s3.len() {
                        assert(d1 < d2);
                    }
                }
            }
        }
    }
}

proof fn lemma_append_key(d: int)
    ensures
        384 <= d < 512 ==> append_key(d) == d - 384,
        256 <= d < 384 ==> append_key(d) == d - 128,
        128 <= d < 256 ==> append_key(d) == d + 128,
        0 <= d < 128 ==> append_key(d) == d + 384,
{
    if 384 <= d < 512 {
        assert(d / 128 == 3);
    } else if 256 <= d < 384 {
        assert(d / 128 == 2);
    } else if 128 <= d < 256 {
        assert(d / 128 == 1);
    } else if 0 <= d < 128 {
        assert(d / 128 == 0);
    }
}

proof fn lemma_clear_smaller(w: u128, d: u128)
    by (bit_vector)
    requires
        d < 128,
        (w >> d) & 1u128 == 1u128,
    ensures
        (w ^ (1u128 << d)) < w,
{
}

/// A stack of action lists, one for each search depth, that grows on demand.
pub struct ActionListStack {
    pub action_lists: Vec<ActionList>,
}

impl ActionListStack {
    /// A stack of `size` empty action lists.
    pub fn with_size(size: usize) -> (r: Self)
        ensures
            r.action_lists@.len() == size,
            forall|i: int| 0 <= i < size ==> (#[trigger] r.action_lists@[i])@ == Seq::<Action>::empty(),
    {
        let mut action_lists: Vec<ActionList> = Vec::new();
        let mut i: usize = 0;
        while i < size
            invariant
                i <= size,
                action_lists@.len() == i,
                forall|k: int| 0 <= k < i ==> (#[trigger] action_lists@[k])@ == Seq::<Action>::empty(),
            decreases size - i,
        {
            action_lists.push(ActionList::default());
            i = i + 1;
        }
        ActionListStack { action_lists }
    }
}

impl ActionListStack {
    /// Grows the stack with empty lists until it has a list at `index`; the lists it had stay.
    pub fn reach(&mut self, index: usize)
        ensures
            final(self).action_lists@.len() == if index < old(self).action_lists@.len() {
                old(self).action_lists@.len() as int
            } else {
                index + 1
            },
            forall|k: int| 0 <= k < old(self).action_lists@.len() ==> #[trigger] final(self).action_lists@[k] == old(self).action_lists@[k],
            forall|k: int|
                old(self).action_lists@.len() <= k < final(self).action_lists@.len() ==> (#[trigger] final(self).action_lists@[k])@ == Seq::<Action>::empty(),
    {
        while self.action_lists.len() <= index
            invariant
                old(self).action_lists@.len() <= self.action_lists@.len() <= if index < old(self).action_lists@.len() {
                    old(self).action_lists@.len() as int
                } else {
                    index + 1
                },
                forall|k: int| 0 <= k < old(self).action_lists@.len() ==> #[trigger] self.action_lists@[k] == old(self).action_lists@[k],
                forall|k: int|
                    old(self).action_lists@.len() <= k < self.action_lists@.len() ==> (#[trigger] self.action_lists@[k])@ == Seq::<Action>::empty(),
            decreases index + 1 - self.action_lists@.len(),
        {
            self.action_lists.push(ActionList::default());
        }
    }
}

} // verus!

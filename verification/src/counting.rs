use vstd::prelude::*;
use crate::bits::{u128_bit, u128_ones};
use crate::bitboard::{Bitboard, is_valid_field};
use crate::geometry::{board_of, word_of, lemma_board_of, lemma_word_of};

verus! {

/// The number of fields `i < 512` for which `f(i)` holds.
pub open spec fn count_of(f: spec_fn(int) -> bool) -> nat {
    board_of(f).count_ones_spec()
}

/// The number of fields of the 20x20 board below `m`.
pub open spec fn valid_below(m: int) -> int {
    if m <= 0 {
        0
    } else if m <= 420 {
        m - m / 21
    } else {
        400
    }
}

proof fn lemma_ones_sub(x: u128, y: u128, n: nat)
    requires
        forall|j: int| 0 <= j < n && #[trigger] u128_bit(x, j) ==> u128_bit(y, j),
    ensures
        u128_ones(x, n) <= u128_ones(y, n),
    decreases n,
{
    if n > 0 {
        lemma_ones_sub(x, y, (n - 1) as nat);
        assert(u128_bit(x, n - 1) ==> u128_bit(y, n - 1));
    }
}

proof fn lemma_ones_union(x: u128, y: u128, z: u128, n: nat)
    requires
        forall|j: int| 0 <= j < n ==> !(#[trigger] u128_bit(x, j) && u128_bit(y, j)),
        forall|j: int| 0 <= j < n ==> #[trigger] u128_bit(z, j) == (u128_bit(x, j) || u128_bit(y, j)),
    ensures
        u128_ones(z, n) == u128_ones(x, n) + u128_ones(y, n),
    decreases n,
{
    if n > 0 {
        lemma_ones_union(x, y, z, (n - 1) as nat);
        assert(u128_bit(z, n - 1) == (u128_bit(x, n - 1) || u128_bit(y, n - 1)));
        assert(!(u128_bit(x, n - 1) && u128_bit(y, n - 1)));
    }
}

proof fn lemma_valid_below_step(m: int)
    requires
        0 <= m,
    ensures
        valid_below(m + 1) == valid_below(m) + if is_valid_field(m) { 1int } else { 0int },
{
    if m < 420 {
        assert((m + 1) - (m + 1) / 21 == m - m / 21 + if m % 21 != 20 { 1int } else { 0int })
            by (nonlinear_arith)
            requires 0 <= m;
    }
}

proof fn lemma_ones_valid(x: u128, base: int, n: nat)
    requires
        0 <= base,
        n <= 128,
        forall|j: int| 0 <= j < n ==> #[trigger] u128_bit(x, j) == is_valid_field(base + j),
    ensures
        u128_ones(x, n) == valid_below(base + n) - valid_below(base),
    decreases n,
{
    if n > 0 {
        lemma_ones_valid(x, base, (n - 1) as nat);
        lemma_valid_below_step(base + n - 1);
        assert(u128_bit(x, n - 1) == is_valid_field(base + n - 1));
    }
}

/// Counting the fields where `f` holds: fewer where `f` implies `g`.
pub proof fn lemma_count_sub(f: spec_fn(int) -> bool, g: spec_fn(int) -> bool)
    requires
        forall|i: int| 0 <= i < 512 && #[trigger] f(i) ==> g(i),
    ensures
        count_of(f) <= count_of(g),
{
    lemma_word_of(f, 0, 128);
    lemma_word_of(f, 128, 128);
    lemma_word_of(f, 256, 128);
    lemma_word_of(f, 384, 128);
    lemma_word_of(g, 0, 128);
    lemma_word_of(g, 128, 128);
    lemma_word_of(g, 256, 128);
    lemma_word_of(g, 384, 128);
    assert forall|j: int| 0 <= j < 128 && #[trigger] u128_bit(word_of(f, 0, 128), j) implies u128_bit(word_of(g, 0, 128), j) by {
        assert(f(0 + j));
    }
    assert forall|j: int| 0 <= j < 128 && #[trigger] u128_bit(word_of(f, 128, 128), j) implies u128_bit(word_of(g, 128, 128), j) by {
        assert(f(128 + j));
    }
    assert forall|j: int| 0 <= j < 128 && #[trigger] u128_bit(word_of(f, 256, 128), j) implies u128_bit(word_of(g, 256, 128), j) by {
        assert(f(256 + j));
    }
    assert forall|j: int| 0 <= j < 128 && #[trigger] u128_bit(word_of(f, 384, 128), j) implies u128_bit(word_of(g, 384, 128), j) by {
        assert(f(384 + j));
    }
    lemma_ones_sub(word_of(f, 0, 128), word_of(g, 0, 128), 128);
    lemma_ones_sub(word_of(f, 128, 128), word_of(g, 128, 128), 128);
    lemma_ones_sub(word_of(f, 256, 128), word_of(g, 256, 128), 128);
    lemma_ones_sub(word_of(f, 384, 128), word_of(g, 384, 128), 128);
}

proof fn lemma_word_union(f: spec_fn(int) -> bool, g: spec_fn(int) -> bool, base: int)
    requires
        forall|i: int| !(#[trigger] f(i) && g(i)),
    ensures
        u128_ones(word_of(|i: int| f(i) || g(i), base, 128), 128) == u128_ones(word_of(f, base, 128), 128)
            + u128_ones(word_of(g, base, 128), 128),
{
    let h = |i: int| f(i) || g(i);
    lemma_word_of(f, base, 128);
    lemma_word_of(g, base, 128);
    lemma_word_of(h, base, 128);
    assert forall|j: int| 0 <= j < 128 implies !(#[trigger] u128_bit(word_of(f, base, 128), j) && u128_bit(word_of(g, base, 128), j)) by {
        assert(!(f(base + j) && g(base + j)));
    }
    lemma_ones_union(word_of(f, base, 128), word_of(g, base, 128), word_of(h, base, 128), 128);
}

/// Counting the fields where `f` or `g` holds, when they never both hold, adds the counts.
pub proof fn lemma_count_disjoint(f: spec_fn(int) -> bool, g: spec_fn(int) -> bool)
    requires
        forall|i: int| !(#[trigger] f(i) && g(i)),
    ensures
        count_of(|i: int| f(i) || g(i)) == count_of(f) + count_of(g),
{
    lemma_word_union(f, g, 0);
    lemma_word_union(f, g, 128);
    lemma_word_union(f, g, 256);
    lemma_word_union(f, g, 384);
}

/// The 20x20 board has 400 fields.
pub proof fn lemma_count_valid()
    ensures
        count_of(|i: int| is_valid_field(i)) == 400,
{
    let f = |i: int| is_valid_field(i);
    lemma_word_of(f, 0, 128);
    lemma_word_of(f, 128, 128);
    lemma_word_of(f, 256, 128);
    lemma_word_of(f, 384, 128);
    assert forall|j: int| 0 <= j < 128 implies #[trigger] u128_bit(word_of(f, 0, 128), j) == is_valid_field(0 + j) by {
    }
    assert forall|j: int| 0 <= j < 128 implies #[trigger] u128_bit(word_of(f, 128, 128), j) == is_valid_field(128 + j) by {
    }
    assert forall|j: int| 0 <= j < 128 implies #[trigger] u128_bit(word_of(f, 256, 128), j) == is_valid_field(256 + j) by {
    }
    assert forall|j: int| 0 <= j < 128 implies #[trigger] u128_bit(word_of(f, 384, 128), j) == is_valid_field(384 + j) by {
    }
    lemma_ones_valid(word_of(f, 0, 128), 0, 128);
    lemma_ones_valid(word_of(f, 128, 128), 128, 128);
    lemma_ones_valid(word_of(f, 256, 128), 256, 128);
    lemma_ones_valid(word_of(f, 384, 128), 384, 128);
}

/// A board is counted by its set bits.
pub proof fn lemma_count_board(b: Bitboard)
    ensures
        b.count_ones_spec() == count_of(|i: int| b.has(i)),
{
    let f = |i: int| b.has(i);
    lemma_board_of(f);
    assert forall|i: int| #[trigger] b.has(i) == board_of(f).has(i) by {
        if i < 0 || i >= 512 {
            assert(!b.has(i));
        }
    }
    crate::bitboard::lemma_has_ext(b, board_of(f));
}

/// Fields of the 20x20 board where `f` holds and fields where `g` holds, never both: together
/// at most 400.
pub proof fn lemma_count_two(f: spec_fn(int) -> bool, g: spec_fn(int) -> bool)
    requires
        forall|i: int| !(#[trigger] f(i) && g(i)),
        forall|i: int| #[trigger] f(i) ==> is_valid_field(i),
        forall|i: int| #[trigger] g(i) ==> is_valid_field(i),
    ensures
        count_of(f) + count_of(g) <= 400,
{
    lemma_count_disjoint(f, g);
    lemma_count_sub(|i: int| f(i) || g(i), |i: int| is_valid_field(i));
    lemma_count_valid();
}

proof fn lemma_ones_one(x: u128, k: int, n: nat)
    requires
        n <= 128,
        forall|j: int| 0 <= j < n ==> #[trigger] u128_bit(x, j) == (j == k),
    ensures
        u128_ones(x, n) == if 0 <= k < n { 1nat } else { 0nat },
    decreases n,
{
    if n > 0 {
        lemma_ones_one(x, k, (n - 1) as nat);
        assert(u128_bit(x, n - 1) == (n - 1 == k));
    }
}

/// A single field counts one.
pub proof fn lemma_count_single(t: int)
    requires
        0 <= t < 512,
    ensures
        count_of(|i: int| i == t) == 1,
{
    let f = |i: int| i == t;
    lemma_word_of(f, 0, 128);
    lemma_word_of(f, 128, 128);
    lemma_word_of(f, 256, 128);
    lemma_word_of(f, 384, 128);
    assert forall|j: int| 0 <= j < 128 implies #[trigger] u128_bit(word_of(f, 0, 128), j) == (j == t - 0) by {
        assert(f(0 + j) == (j == t));
    }
    assert forall|j: int| 0 <= j < 128 implies #[trigger] u128_bit(word_of(f, 128, 128), j) == (j == t - 128) by {
        assert(f(128 + j) == (j == t - 128));
    }
    assert forall|j: int| 0 <= j < 128 implies #[trigger] u128_bit(word_of(f, 256, 128), j) == (j == t - 256) by {
        assert(f(256 + j) == (j == t - 256));
    }
    assert forall|j: int| 0 <= j < 128 implies #[trigger] u128_bit(word_of(f, 384, 128), j) == (j == t - 384) by {
        assert(f(384 + j) == (j == t - 384));
    }
    lemma_ones_one(word_of(f, 0, 128), t, 128);
    lemma_ones_one(word_of(f, 128, 128), t - 128, 128);
    lemma_ones_one(word_of(f, 256, 128), t - 256, 128);
    lemma_ones_one(word_of(f, 384, 128), t - 384, 128);
}

/// Clearing a set bit lowers the count by one.
pub proof fn lemma_count_remove(b: Bitboard, c: Bitboard, t: int)
    requires
        b.has(t),
        forall|i: int| #[trigger] c.has(i) == (b.has(i) && i != t),
    ensures
        c.count_ones_spec() + 1 == b.count_ones_spec(),
{
    lemma_count_board(b);
    lemma_count_board(c);
    let fc = |i: int| c.has(i);
    let ft = |i: int| i == t;
    assert(0 <= t < 512);
    lemma_count_disjoint(fc, ft);
    assert((|i: int| fc(i) || ft(i)) =~= (|i: int| b.has(i)));
    lemma_count_single(t);
}

/// A board with a positive count has a set bit.
pub proof fn lemma_count_positive(b: Bitboard)
    requires
        b.count_ones_spec() > 0,
    ensures
        exists|i: int| #[trigger] b.has(i),
{
    if forall|i: int| !#[trigger] b.has(i) {
        let none = |i: int| false;
        let zero = |i: int| i == 0;
        let fb = |i: int| b.has(i);
        lemma_count_board(b);
        lemma_count_sub(fb, none);
        lemma_count_single(0);
        lemma_count_disjoint(none, zero);
        assert((|i: int| none(i) || zero(i)) =~= zero);
        assert(count_of(zero) == count_of(none) + count_of(zero));
    }
}

} // verus!

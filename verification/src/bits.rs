use vstd::prelude::*;

verus! {

/// Whether bit `i` of the 128-bit word `x` is set (bit 0 is the least significant one).
pub open spec fn u128_bit(x: u128, i: int) -> bool {
    0 <= i < 128 && (x >> (i as u128)) & 1u128 == 1u128
}

/// Number of set bits of `x` among the bits `0..n`.
pub open spec fn u128_ones(x: u128, n: nat) -> nat
    decreases n,
{
    if n == 0 {
        0
    } else {
        u128_ones(x, (n - 1) as nat) + if u128_bit(x, n - 1) { 1nat } else { 0nat }
    }
}

proof fn lemma_bit_binops(a: u128, b: u128, i: u128)
    by (bit_vector)
    requires
        i < 128,
    ensures
        ((a & b) >> i) & 1u128 == 1u128 <==> (((a >> i) & 1u128 == 1u128) && ((b >> i) & 1u128
            == 1u128)),
        ((a | b) >> i) & 1u128 == 1u128 <==> (((a >> i) & 1u128 == 1u128) || ((b >> i) & 1u128
            == 1u128)),
        ((a ^ b) >> i) & 1u128 == 1u128 <==> (((a >> i) & 1u128 == 1u128) != ((b >> i) & 1u128
            == 1u128)),
        ((!a) >> i) & 1u128 == 1u128 <==> !((a >> i) & 1u128 == 1u128),
{
}

proof fn lemma_bit_shifts(a: u128, n: u128, i: u128)
    by (bit_vector)
    requires
        i < 128,
        n < 128,
    ensures
        ((a << n) >> i) & 1u128 == 1u128 <==> (i >= n && ((a >> (i - n) as u128) & 1u128
            == 1u128)),
        ((a >> n) >> i) & 1u128 == 1u128 <==> (i + n < 128 && ((a >> (i + n) as u128) & 1u128
            == 1u128)),
        ((1u128 << n) >> i) & 1u128 == 1u128 <==> i == n,
        ((0u128) >> i) & 1u128 != 1u128,
{
}

/// Bitwise and, or, xor and not act bit by bit.
pub proof fn lemma_u128_bitwise(a: u128, b: u128)
    ensures
        forall|i: int| #[trigger] u128_bit(a & b, i) <==> (u128_bit(a, i) && u128_bit(b, i)),
        forall|i: int| #[trigger] u128_bit(a | b, i) <==> (u128_bit(a, i) || u128_bit(b, i)),
        forall|i: int| #[trigger] u128_bit(a ^ b, i) <==> (u128_bit(a, i) != u128_bit(b, i)),
        forall|i: int| #[trigger] u128_bit(!a, i) <==> (0 <= i < 128 && !u128_bit(a, i)),
{
    assert forall|i: int| 0 <= i < 128 implies {
        &&& (u128_bit(a & b, i) <==> (u128_bit(a, i) && u128_bit(b, i)))
        &&& (u128_bit(a | b, i) <==> (u128_bit(a, i) || u128_bit(b, i)))
        &&& (u128_bit(a ^ b, i) <==> (u128_bit(a, i) != u128_bit(b, i)))
        &&& (u128_bit(!a, i) <==> !u128_bit(a, i))
    } by {
        lemma_bit_binops(a, b, i as u128);
    }
}

/// Shifting a word moves its bits; bits shifted past either end are lost.
pub proof fn lemma_u128_shift(a: u128, n: u128)
    requires
        n < 128,
    ensures
        forall|i: int| #[trigger] u128_bit(a << n, i) <==> (n <= i < 128 && u128_bit(a, i - n)),
        forall|i: int| #[trigger] u128_bit(a >> n, i) <==> (0 <= i && u128_bit(a, i + n)),
{
    assert forall|i: int| 0 <= i < 128 implies {
        &&& (u128_bit(a << n, i) <==> (n <= i < 128 && u128_bit(a, i - n)))
        &&& (u128_bit(a >> n, i) <==> (u128_bit(a, i + n)))
    } by {
        lemma_bit_shifts(a, n, i as u128);
    }
}

/// A one shifted left by `n` has exactly bit `n` set; zero has no bit set.
pub proof fn lemma_u128_single(n: u128)
    requires
        n < 128,
    ensures
        forall|i: int| #[trigger] u128_bit(1u128 << n, i) <==> i == n,
        forall|i: int| !#[trigger] u128_bit(0u128, i),
{
    assert forall|i: int| #[trigger] u128_bit(1u128 << n, i) <==> i == n by {
        if 0 <= i < 128 {
            lemma_bit_shifts(0, n, i as u128);
            assert(((1u128 << n) >> (i as u128)) & 1u128 == 1u128 <==> (i as u128) == n);
        }
    }
    assert forall|i: int| !#[trigger] u128_bit(0u128, i) by {
        if 0 <= i < 128 {
            lemma_bit_shifts(0, n, i as u128);
        }
    }
}

/// Returns the number of trailing zero bits of `x` (128 for zero), through `u128::trailing_zeros`.
/// Trusted: std documents the result as the count of zero bits below the lowest set bit; the
/// contract states that every lower bit is clear and that the bit at the result is set.
#[verifier::external_body]
pub(crate) fn u128_trailing_zeros(x: u128) -> (r: u32)
    ensures
        r <= 128,
        (r == 128) == (x == 0),
        forall|j: int| 0 <= j < r ==> !u128_bit(x, j),
        r < 128 ==> u128_bit(x, r as int),
{
    x.trailing_zeros()
}

/// Returns the number of one bits of `x`, through `u128::count_ones`.
/// Trusted: std documents the result as the number of ones in the binary representation.
#[verifier::external_body]
pub(crate) fn u128_count_ones(x: u128) -> (r: u32)
    ensures
        r == u128_ones(x, 128),
{
    x.count_ones()
}

pub proof fn lemma_u128_ones_bound(x: u128, n: nat)
    ensures
        u128_ones(x, n) <= n,
    decreases n,
{
    if n > 0 {
        lemma_u128_ones_bound(x, (n - 1) as nat);
    }
}

} // verus!

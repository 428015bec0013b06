//! The minimal bit width needed to represent a value.

use vstd::prelude::*;

verus! {

/// Two to the power `k`.
pub open spec fn two_pow(k: nat) -> nat
    decreases k,
{
    if k == 0 {
        1
    } else {
        2 * two_pow((k - 1) as nat)
    }
}

/// The number of bits needed to represent `v`: 0 for 0, and one more than
/// for `v / 2` otherwise.
pub open spec fn bit_width_of(v: nat) -> nat
    decreases v,
{
    if v == 0 {
        0
    } else {
        1 + bit_width_of(v / 2)
    }
}

/// Every value is below two to its bit width.
pub proof fn lemma_bit_width_bound(v: nat)
    ensures
        v < two_pow(bit_width_of(v)),
    decreases v,
{
    if v > 0 {
        lemma_bit_width_bound(v / 2);
        assert(v < 2 * two_pow(bit_width_of(v / 2))) by (nonlinear_arith)
            requires v / 2 < two_pow(bit_width_of(v / 2)), v > 0;
    }
}

/// A value below two to the `k` needs at most `k` bits.
pub proof fn lemma_bit_width_le(v: nat, k: nat)
    requires
        v < two_pow(k),
    ensures
        bit_width_of(v) <= k,
    decreases v,
{
    if v > 0 {
        assert(k > 0);
        assert(v / 2 < two_pow((k - 1) as nat)) by (nonlinear_arith)
            requires v < 2 * two_pow((k - 1) as nat);
        lemma_bit_width_le(v / 2, (k - 1) as nat);
    }
}

/// Computes the minimal number of bits needed to represent every value in
/// `0 ..= max_value`: semantically the ceiling of the base-2 logarithm of
/// `max_value + 1`, with 0 needing no bits.
pub fn get_bit_width(max_value: u64) -> (r: u8)
    ensures
        r == bit_width_of(max_value as nat),
        r <= 64,
{
    let mut v: u64 = max_value;
    let mut n: u8 = 0;
    proof {
        assert(two_pow(64) == 0x10000000000000000) by {
            reveal_with_fuel(two_pow, 65);
        }
        lemma_bit_width_le(max_value as nat, 64);
    }
    while v > 0
        invariant
            n + bit_width_of(v as nat) == bit_width_of(max_value as nat),
            bit_width_of(max_value as nat) <= 64,
        decreases v,
    {
        v = v / 2;
        n = n + 1;
    }
    n
}

} // verus!

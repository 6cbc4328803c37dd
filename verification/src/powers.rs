//! Powers of two.
use vstd::arithmetic::power2::{lemma_pow2_pos, lemma_pow2_unfold, pow2};
use vstd::prelude::*;

verus! {

/// Whether `value` is a power of two.
pub open spec fn power_of_two(value: nat) -> bool {
    exists|exponent: nat| pow2(exponent) == value
}

/// One is a power of two, no other odd number is, and an even number is one
/// exactly if its half is.
proof fn lemma_halving(value: nat)
    requires
        value > 0,
    ensures
        value == 1 ==> power_of_two(value),
        value % 2 == 1 && value != 1 ==> !power_of_two(value),
        value % 2 == 0 ==> power_of_two(value) == power_of_two(value / 2),
{
    vstd::arithmetic::power2::lemma2_to64();
    assert(pow2(0) == 1);
    if power_of_two(value) {
        let exponent = choose|exponent: nat| pow2(exponent) == value;
        if exponent > 0 {
            lemma_pow2_unfold(exponent);
            assert(pow2((exponent - 1) as nat) == value / 2);
        }
    }
    if power_of_two(value / 2) && value % 2 == 0 {
        let exponent = choose|exponent: nat| pow2(exponent) == value / 2;
        lemma_pow2_unfold(exponent + 1);
        assert(pow2(exponent + 1) == value);
    }
}

/// Zero is no power of two and one is; no odd number beside it is; a doubled
/// number is one exactly if the number is.
pub proof fn law_powers_are_doubled_ones(value: nat)
    ensures
        !power_of_two(0),
        power_of_two(1),
        value % 2 == 1 && value != 1 ==> !power_of_two(value),
        power_of_two(2 * value) <==> power_of_two(value),
{
    assert forall|exponent: nat| pow2(exponent) != 0 by {
        lemma_pow2_pos(exponent);
    }
    lemma_halving(1);
    if value > 0 {
        lemma_halving(value);
        lemma_halving(2 * value);
    }
}

/// Whether `value` is a power of two.
pub fn is_power_of_two(value: u64) -> (result: bool)
    ensures
        result == power_of_two(value as nat),
{
    if value == 0 {
        proof {
            assert forall|exponent: nat| pow2(exponent) != 0 by {
                lemma_pow2_pos(exponent);
            }
        }
        return false;
    }
    let mut rest = value;
    while rest % 2 == 0
        invariant
            rest > 0,
            power_of_two(value as nat) == power_of_two(rest as nat),
        decreases rest,
    {
        proof {
            lemma_halving(rest as nat);
        }
        rest = rest / 2;
    }
    proof {
        lemma_halving(rest as nat);
    }
    rest == 1
}

} // verus!

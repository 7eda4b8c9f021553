//! Powers of two and three, and the floor logarithm to base two.

use vstd::prelude::*;

verus! {

/// `3` to the power `e`.
pub open spec fn three_pow(e: nat) -> nat
    decreases e,
{
    if e == 0 {
        1
    } else {
        3 * three_pow((e - 1) as nat)
    }
}

/// `2` to the power `e`.
pub open spec fn two_pow(e: nat) -> nat
    decreases e,
{
    if e == 0 {
        1
    } else {
        2 * two_pow((e - 1) as nat)
    }
}

/// The largest `k` with `2^k <= x`, for a positive `x`.
pub open spec fn log2_floor(x: nat) -> nat
    decreases x,
{
    if x < 2 {
        0
    } else {
        1 + log2_floor(x / 2)
    }
}

/// The value of `3^80`.
pub(crate) proof fn lemma_three_pow_80()
    ensures
        three_pow(80) == 147808829414345923316083210206383297601nat,
{
    reveal_with_fuel(three_pow, 81);
}

/// Powers of three are at least one and grow with the exponent.
pub(crate) proof fn lemma_three_pow_monotone(a: nat, b: nat)
    requires
        a <= b,
    ensures
        1 <= three_pow(a) <= three_pow(b),
    decreases b,
{
    if b > a {
        lemma_three_pow_monotone(a, (b - 1) as nat);
    } else if a > 0 {
        lemma_three_pow_monotone((a - 1) as nat, (a - 1) as nat);
    }
}

/// The exponent `k` with `2^k <= x < 2^(k+1)` is `log2_floor(x)`.
pub(crate) proof fn lemma_log2_floor_bracket(x: nat, k: nat)
    requires
        two_pow(k) <= x < two_pow(k + 1),
    ensures
        log2_floor(x) == k,
    decreases k,
{
    if k > 0 {
        lemma_log2_floor_bracket(x / 2, (k - 1) as nat);
    }
}

/// `3^e`, for `e` up to 80: `3^80` is the last power of three below `2^128`.
pub(crate) fn three_power(e: u32) -> (p: u128)
    requires
        e <= 80,
    ensures
        p == three_pow(e as nat),
{
    proof {
        lemma_three_pow_80();
    }
    let mut p: u128 = 1;
    let mut i: u32 = 0;
    while i < e
        invariant
            i <= e <= 80,
            p == three_pow(i as nat),
            three_pow(80) == 147808829414345923316083210206383297601nat,
        decreases e - i,
    {
        proof {
            lemma_three_pow_monotone((i + 1) as nat, 80);
        }
        p = p * 3;
        i = i + 1;
    }
    p
}

/// A value below `2^k` has a floor logarithm below `k`.
pub(crate) proof fn lemma_log2_floor_below(x: nat, k: nat)
    requires
        x < two_pow(k),
    ensures
        log2_floor(x) < k || x == 0,
    decreases k,
{
    if x >= 2 && k > 0 {
        lemma_log2_floor_below(x / 2, (k - 1) as nat);
    }
}

/// Powers of two are at least one and grow with the exponent.
pub(crate) proof fn lemma_two_pow_monotone(a: nat, b: nat)
    requires
        a <= b,
    ensures
        1 <= two_pow(a) <= two_pow(b),
    decreases b,
{
    if b > a {
        lemma_two_pow_monotone(a, (b - 1) as nat);
    } else if a > 0 {
        lemma_two_pow_monotone((a - 1) as nat, (a - 1) as nat);
    }
}

/// Exponents of two add when their powers multiply.
pub(crate) proof fn lemma_two_pow_add(a: nat, b: nat)
    ensures
        two_pow(a + b) == two_pow(a) * two_pow(b),
    decreases a,
{
    if a == 0 {
        assert(two_pow(0) == 1);
        assert(a + b == b);
    } else {
        let a1 = (a - 1) as nat;
        lemma_two_pow_add(a1, b);
        assert(two_pow(a) == 2 * two_pow(a1));
        assert(two_pow(a1 + b + 1) == 2 * two_pow(a1 + b));
        assert(a + b == a1 + b + 1);
        let x = two_pow(a1);
        let y = two_pow(b);
        assert(2 * (x * y) == (2 * x) * y) by (nonlinear_arith);
    }
}

/// The value of `2^127`.
pub(crate) proof fn lemma_two_pow_127()
    ensures
        two_pow(127) == 170141183460469231731687303715884105728nat,
{
    assert(two_pow(63) == 9223372036854775808nat) by {
        reveal_with_fuel(two_pow, 64);
    }
    lemma_two_pow_add(63, 63);
    lemma_two_pow_add(126, 1);
    assert(two_pow(1) == 2) by {
        reveal_with_fuel(two_pow, 2);
    }
    assert(9223372036854775808nat * 9223372036854775808nat == 85070591730234615865843651857942052864nat)
        by (nonlinear_arith);
}

/// A power of two that fits a [`u128`] has an exponent below 128.
pub(crate) proof fn lemma_two_pow_exponent_bound(k: nat)
    requires
        two_pow(k) <= 0xffff_ffff_ffff_ffff_ffff_ffff_ffff_ffff,
    ensures
        k < 128,
{
    if k >= 128 {
        lemma_two_pow_monotone(128, k);
        lemma_two_pow_127();
        assert(two_pow(128) == 2 * two_pow(127));
    }
}

} // verus!

use vstd::prelude::*;

verus! {

/// `b` raised to the `e`-th power.
pub open spec fn pow(b: nat, e: nat) -> nat
    decreases e,
{
    if e == 0 {
        1
    } else {
        b * pow(b, (e - 1) as nat)
    }
}

/// Distance between two naturals.
pub open spec fn abs_diff(a: nat, b: nat) -> nat {
    if a >= b {
        (a - b) as nat
    } else {
        (b - a) as nat
    }
}

/// Magnitude of an integer.
pub open spec fn abs(a: int) -> nat {
    if a >= 0 {
        a as nat
    } else {
        (-a) as nat
    }
}

/// Largest value of `u128`, as a natural.
pub open spec fn u128_max() -> nat {
    u128::MAX as nat
}

pub proof fn lemma_pow_pos(b: nat, e: nat)
    requires
        b >= 1,
    ensures
        pow(b, e) >= 1,
    decreases e,
{
    if e > 0 {
        lemma_pow_pos(b, (e - 1) as nat);
        assert(b * pow(b, (e - 1) as nat) >= 1) by (nonlinear_arith)
            requires
                b >= 1,
                pow(b, (e - 1) as nat) >= 1,
        ;
    }
}

/// For a base of at least one, the power grows with the exponent.
pub proof fn lemma_pow_mono_exp(b: nat, e1: nat, e2: nat)
    requires
        b >= 1,
        e1 <= e2,
    ensures
        pow(b, e1) <= pow(b, e2),
    decreases e2,
{
    if e1 < e2 {
        lemma_pow_mono_exp(b, e1, (e2 - 1) as nat);
        lemma_pow_pos(b, (e2 - 1) as nat);
        let p = pow(b, (e2 - 1) as nat);
        assert(p <= b * p) by (nonlinear_arith)
            requires
                b >= 1,
        ;
    }
}

/// The power grows with the base.
pub proof fn lemma_pow_mono_base(b1: nat, b2: nat, e: nat)
    requires
        b1 <= b2,
    ensures
        pow(b1, e) <= pow(b2, e),
    decreases e,
{
    if e > 0 {
        lemma_pow_mono_base(b1, b2, (e - 1) as nat);
        let p1 = pow(b1, (e - 1) as nat);
        let p2 = pow(b2, (e - 1) as nat);
        assert(b1 * p1 <= b2 * p2) by (nonlinear_arith)
            requires
                b1 <= b2,
                p1 <= p2,
        ;
    }
}

/// Imbalance figures stay below 10^4, so their powers up to the eighth fit in `u128`.
pub proof fn lemma_bps_pow_fits(d: nat, e: nat)
    requires
        d <= 10_000,
        e <= 8,
    ensures
        pow(d, e) <= 100_000_000_000_000_000_000_000_000_000_000,
{
    lemma_pow_mono_base(d, 10_000, e);
    if e > 0 {
        lemma_pow_mono_exp(10_000, e, 8);
    } else {
        assert(pow(d, e) == 1);
    }
    reveal_with_fuel(pow, 9);
    assert(pow(10_000, 8) == 100_000_000_000_000_000_000_000_000_000_000);
}

/// Scaling numerator and denominator alike leaves a quotient unchanged.
pub proof fn lemma_div_scaled(a: nat, b: nat, k: nat)
    requires
        b > 0,
        k > 0,
    ensures
        (k * a) / (k * b) == a / b,
{
    let q = a / b;
    let r = a % b;
    assert(a == b * q + r && r < b) by {
        vstd::arithmetic::div_mod::lemma_fundamental_div_mod(a as int, b as int);
    }
    assert(k * a == q * (k * b) + k * r) by (nonlinear_arith)
        requires
            a == b * q + r,
    ;
    assert(k * r < k * b) by (nonlinear_arith)
        requires
            r < b,
            k > 0,
    ;
    vstd::arithmetic::div_mod::lemma_fundamental_div_mod_converse((k * a) as int, (k * b) as int, q as int, (k * r) as int);
}

} // verus!

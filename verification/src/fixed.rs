//! Saturating fixed-point arithmetic in millionths of a unit, together
//! with a scaled natural-logarithm approximation.  The ranking engine
//! states its scores over these operations, so every score is an exact,
//! reproducible function of the inputs.

use vstd::prelude::*;

verus! {

/// One unit in fixed-point representation: values carry six decimal
/// places.
pub const SCALE: u64 = 1_000_000;

/// The natural logarithm of two, in millionths.
pub const LN2_SCALED: u64 = 693_147;

/// Clamps a mathematical integer into the value range of `u64`.
pub open spec fn cap64(x: int) -> int {
    if x > u64::MAX {
        u64::MAX as int
    } else if x < 0 {
        0
    } else {
        x
    }
}

/// Saturating addition.
pub open spec fn spec_add_sat(a: int, b: int) -> int {
    cap64(a + b)
}

/// Adds with saturation at the top of the `u64` range.
pub fn add_sat(a: u64, b: u64) -> (r: u64)
    ensures
        r as int == spec_add_sat(a as int, b as int),
{
    if a > u64::MAX - b {
        u64::MAX
    } else {
        a + b
    }
}

/// Saturating floor of `a * b / c`; the whole `u64` range stands for an
/// undefined quotient when `c` is zero.
pub open spec fn spec_mul_div(a: int, b: int, c: int) -> int {
    if c <= 0 {
        u64::MAX as int
    } else {
        cap64(a * b / c)
    }
}

/// Computes the floor of `a * b / c` with saturation.
pub fn mul_div(a: u64, b: u64, c: u64) -> (r: u64)
    ensures
        r as int == spec_mul_div(a as int, b as int, c as int),
{
    if c == 0 {
        return u64::MAX;
    }
    proof {
        assert((a as int) * (b as int) >= 0 && (a as int) * (b as int) <= u128::MAX) by (nonlinear_arith)
            requires
                0 <= a as int <= u64::MAX,
                0 <= b as int <= u64::MAX,
        ;
    }
    let p: u128 = (a as u128) * (b as u128);
    let q: u128 = p / (c as u128);
    proof {
        assert(q == (a as int) * (b as int) / (c as int));
        assert(q >= 0);
    }
    if q > u64::MAX as u128 {
        u64::MAX
    } else {
        q as u64
    }
}

/// The floor of the base-two logarithm of `p / q`, as the number of
/// doublings of `q` that stay at or below `p`.
pub open spec fn spec_log2_floor(p: int, q: int) -> int
    decreases p - q,
    when 1 <= q <= p
{
    if 2 * q > p {
        0
    } else {
        1 + spec_log2_floor(p, 2 * q)
    }
}

/// Two to the power `k`.
pub open spec fn spec_pow2(k: nat) -> int
    decreases k,
{
    if k == 0 {
        1
    } else {
        2 * spec_pow2((k - 1) as nat)
    }
}

pub proof fn lemma_log2_floor_bounds(p: int, q: int)
    requires
        1 <= q <= p,
    ensures
        0 <= spec_log2_floor(p, q),
        q * spec_pow2(spec_log2_floor(p, q) as nat) <= p,
        spec_pow2(spec_log2_floor(p, q) as nat) >= 1,
    decreases p - q,
{
    if 2 * q > p {
        assert(spec_pow2(0) == 1);
    } else {
        lemma_log2_floor_bounds(p, 2 * q);
        let k = spec_log2_floor(p, 2 * q);
        assert(spec_pow2((k + 1) as nat) == 2 * spec_pow2(k as nat));
        assert(q * spec_pow2((k + 1) as nat) == (2 * q) * spec_pow2(k as nat)) by (nonlinear_arith)
            requires
                spec_pow2((k + 1) as nat) == 2 * spec_pow2(k as nat),
        ;
    }
}

/// The scaled natural logarithm of the rational `p / q`: the base-two
/// logarithm is taken with its floor and a linear interpolation between
/// neighbouring powers of two, then converted with the logarithm of two.
/// It is exact at powers of two and within a few percent elsewhere, and
/// it is zero exactly when `p == q`.
pub open spec fn spec_ln_scaled(p: int, q: int) -> int {
    if 1 <= q <= p {
        let k = spec_log2_floor(p, q);
        let qq = q * spec_pow2(k as nat);
        let frac = spec_mul_div(p - qq, SCALE as int, qq);
        spec_mul_div(spec_add_sat(k * SCALE, frac), LN2_SCALED as int, SCALE as int)
    } else {
        0
    }
}

/// Computes the scaled natural logarithm of `p / q`.
pub fn ln_scaled(p: u64, q: u64) -> (r: u64)
    requires
        1 <= q <= p,
    ensures
        r as int == spec_ln_scaled(p as int, q as int),
{
    let mut k: u64 = 0;
    let mut qq: u128 = q as u128;
    proof {
        assert(spec_pow2(0) == 1);
    }
    while qq * 2 <= p as u128
        invariant
            1 <= q <= p,
            1 <= qq,
            qq == (q as int) * spec_pow2(k as nat),
            qq <= p as int,
            spec_log2_floor(p as int, q as int) == k + spec_log2_floor(p as int, qq as int),
            qq >= spec_pow2(k as nat),
            k <= 64,
        decreases p as int - qq,
    {
        proof {
            assert(spec_log2_floor(p as int, qq as int) == 1 + spec_log2_floor(
                p as int,
                2 * qq as int,
            ));
            assert(spec_pow2((k + 1) as nat) == 2 * spec_pow2(k as nat));
            assert((q as int) * spec_pow2((k + 1) as nat) == 2 * ((q as int) * spec_pow2(
                k as nat,
            ))) by (nonlinear_arith)
                requires
                    spec_pow2((k + 1) as nat) == 2 * spec_pow2(k as nat),
            ;
        }
        qq = qq * 2;
        k = k + 1;
        proof {
            assert(qq >= spec_pow2(k as nat));
            assert(k <= 64) by {
                if k > 64 {
                    lemma_pow2_64();
                    lemma_pow2_monotonic(64, k as nat);
                    assert(spec_pow2(k as nat) > u64::MAX);
                    assert(qq > u64::MAX as int);
                    assert(qq <= p as int);
                    assert(false);
                }
            }
        }
    }
    proof {
        assert(spec_log2_floor(p as int, qq as int) == 0);
        assert(spec_log2_floor(p as int, q as int) == k);
        assert(qq <= p as int && p as int <= u64::MAX);
    }
    let qq64: u64 = qq as u64;
    let rem: u64 = p - qq64;
    let frac: u64 = mul_div(rem, SCALE, qq64);
    let scaled_log2: u64 = add_sat(mul_div(k, SCALE, 1), frac);
    proof {
        assert((k as int) * (SCALE as int) / 1 == (k as int) * (SCALE as int));
        assert(cap64((k as int) * (SCALE as int)) == (k as int) * (SCALE as int)) by {
            assert((k as int) * (SCALE as int) <= 64 * 1_000_000);
        }
    }
    mul_div(scaled_log2, LN2_SCALED, SCALE)
}

proof fn lemma_pow2_64()
    ensures
        spec_pow2(64) == 0x1_0000_0000_0000_0000,
{
    reveal_with_fuel(spec_pow2, 65);
}

proof fn lemma_pow2_monotonic(a: nat, b: nat)
    requires
        a <= b,
    ensures
        spec_pow2(a) <= spec_pow2(b),
    decreases b,
{
    if a < b {
        lemma_pow2_monotonic(a, (b - 1) as nat);
        assert(spec_pow2(b) == 2 * spec_pow2((b - 1) as nat));
        assert(spec_pow2((b - 1) as nat) >= 1) by {
            lemma_pow2_positive((b - 1) as nat);
        }
    }
}

proof fn lemma_pow2_positive(k: nat)
    ensures
        spec_pow2(k) >= 1,
    decreases k,
{
    if k > 0 {
        lemma_pow2_positive((k - 1) as nat);
    }
}

} // verus!

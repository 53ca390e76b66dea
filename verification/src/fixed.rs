//! Fixed-point arithmetic in micro-units.
//!
//! A `u64` value `v` stands for the non-negative real number `v / SCALE`.
//! Every operation states its exact integer result, so callers reason about
//! the truncating arithmetic itself rather than an idealised real.

use vstd::prelude::*;

verus! {

/// One whole unit: values are scaled by a million (micro-units).
pub const SCALE: u64 = 1_000_000;

/// Largest argument the fixed-point power accepts (32 whole units).
pub const POW_ARG_MAX: u64 = 32 * SCALE;

/// Largest exponent the fixed-point power accepts.
pub const POW_EXP_MAX: u64 = 12;

/// The exact truncating fixed-point product: `(a * b) / SCALE`.
pub open spec fn fx_mul_spec(a: int, b: int) -> int {
    (a * b) / (SCALE as int)
}

/// The exact truncating fixed-point interpolation from `v0` (at `t == 0`)
/// towards `v1` (at `t == SCALE`).
pub open spec fn lerp_spec(v0: int, v1: int, t: int) -> int {
    ((SCALE as int - t) * v0 + t * v1) / (SCALE as int)
}

/// The truncating fixed-point power: `SCALE` at exponent zero, then one
/// truncating fixed-point multiplication by `x` per step.
pub open spec fn fx_pow_spec(x: int, n: nat) -> int
    decreases n,
{
    if n == 0 {
        SCALE as int
    } else {
        (fx_pow_spec(x, (n - 1) as nat) * x) / (SCALE as int)
    }
}

/// An upper envelope for `fx_pow_spec` when `0 <= x <= POW_ARG_MAX`:
/// `32^n * SCALE`.
pub open spec fn pow_cap(n: nat) -> int
    decreases n,
{
    if n == 0 {
        SCALE as int
    } else {
        32 * pow_cap((n - 1) as nat)
    }
}

/// `r` is the integer square root of `x`, rounded down.
pub open spec fn is_sqrt_floor(r: int, x: int) -> bool {
    0 <= r && r * r <= x && x < (r + 1) * (r + 1)
}

/// The integer square root of `x`, rounded down (0 for negative `x`).
pub open spec fn sqrt_floor(x: int) -> int
    decreases x,
{
    if x <= 0 {
        0
    } else {
        let p = sqrt_floor(x - 1);
        if (p + 1) * (p + 1) <= x {
            p + 1
        } else {
            p
        }
    }
}

/// The integer square root of `x`, rounded up.
pub open spec fn sqrt_ceil(x: int) -> int {
    if sqrt_floor(x) * sqrt_floor(x) == x {
        sqrt_floor(x)
    } else {
        sqrt_floor(x) + 1
    }
}

/// The rounded-up square root is at least the square root: its square covers
/// the radicand, and it is positive for positive radicands.
pub proof fn lemma_sqrt_ceil_facts(x: int)
    requires
        0 <= x,
    ensures
        sqrt_ceil(x) * sqrt_ceil(x) >= x,
        0 <= sqrt_ceil(x),
        x > 0 ==> sqrt_ceil(x) >= 1,
{
    lemma_sqrt_floor_exists(x);
}

/// Dividing a scaled value by `h` and squaring keeps `h * h` times the
/// result below the square of the scaled value.
pub proof fn lemma_scaled_div_sq(a: int, s: int, h: int)
    requires
        0 <= a,
        0 <= s,
        0 < h,
    ensures
        0 <= (a * s) / h,
        ((a * s) / h) * ((a * s) / h) * (h * h) <= (a * a) * (s * s),
{
    let p = a * s;
    assert(0 <= p) by (nonlinear_arith)
        requires
            0 <= a,
            0 <= s,
            p == a * s,
    ;
    vstd::arithmetic::div_mod::lemma_div_pos_is_pos(p, h);
    let q = p / h;
    vstd::arithmetic::div_mod::lemma_fundamental_div_mod(p, h);
    vstd::arithmetic::div_mod::lemma_mod_bound(p, h);
    assert(q * h <= p) by (nonlinear_arith)
        requires
            p == h * q + p % h,
            0 <= p % h,
    ;
    assert(q * q * (h * h) <= (a * a) * (s * s)) by (nonlinear_arith)
        requires
            0 <= q * h <= p,
            p == a * s,
            0 <= q,
    ;
}

/// The truncating interpolation stays between its endpoints.
pub proof fn lemma_lerp_between(v0: int, v1: int, t: int)
    requires
        0 <= v0,
        0 <= v1,
        0 <= t < SCALE,
    ensures
        v0 <= v1 ==> v0 <= lerp_spec(v0, v1, t) <= v1,
        v1 <= v0 ==> v1 <= lerp_spec(v0, v1, t) <= v0,
{
    let lo = if v0 <= v1 { v0 } else { v1 };
    let hi = if v0 <= v1 { v1 } else { v0 };
    let sum = (SCALE as int - t) * v0 + t * v1;
    assert((SCALE as int) * lo <= sum <= (SCALE as int) * hi) by (nonlinear_arith)
        requires
            0 <= t < SCALE,
            lo <= v0 <= hi,
            lo <= v1 <= hi,
            sum == (SCALE as int - t) * v0 + t * v1,
    ;
    vstd::arithmetic::div_mod::lemma_div_is_ordered((SCALE as int) * lo, sum, SCALE as int);
    vstd::arithmetic::div_mod::lemma_div_is_ordered(sum, (SCALE as int) * hi, SCALE as int);
    assert(((SCALE as int) * lo) / (SCALE as int) == lo) by (nonlinear_arith)
        requires
            SCALE == 1_000_000,
    ;
    assert(((SCALE as int) * hi) / (SCALE as int) == hi) by (nonlinear_arith)
        requires
            SCALE == 1_000_000,
    ;
}

/// `sqrt_floor` meets its defining property for every non-negative argument.
pub proof fn lemma_sqrt_floor_exists(x: int)
    requires
        0 <= x,
    ensures
        is_sqrt_floor(sqrt_floor(x), x),
    decreases x,
{
    if x == 0 {
        assert(sqrt_floor(0) == 0);
    } else {
        lemma_sqrt_floor_exists(x - 1);
        let p = sqrt_floor(x - 1);
        assert(is_sqrt_floor(p, x - 1));
        if (p + 1) * (p + 1) <= x {
            assert(x - 1 < (p + 1) * (p + 1));
            assert(x < (p + 2) * (p + 2)) by (nonlinear_arith)
                requires
                    x <= (p + 1) * (p + 1),
                    0 <= p,
            ;
        }
    }
}

/// There is only one integer square root, so any witness equals `sqrt_floor`.
pub proof fn lemma_sqrt_floor_is(r: int, x: int)
    requires
        is_sqrt_floor(r, x),
    ensures
        sqrt_floor(x) == r,
{
    lemma_sqrt_floor_exists(x);
    let w = sqrt_floor(x);
    assert(r <= w) by (nonlinear_arith)
        requires
            0 <= r,
            0 <= w,
            r * r <= x,
            x < (w + 1) * (w + 1),
    ;
    assert(w <= r) by (nonlinear_arith)
        requires
            0 <= r,
            0 <= w,
            w * w <= x,
            x < (r + 1) * (r + 1),
    ;
}

/// A larger radicand never has a smaller integer square root.
pub proof fn lemma_sqrt_floor_monotone(x1: int, x2: int)
    requires
        0 <= x1 <= x2,
    ensures
        sqrt_floor(x1) <= sqrt_floor(x2),
{
    lemma_sqrt_floor_exists(x1);
    lemma_sqrt_floor_exists(x2);
    let r1 = sqrt_floor(x1);
    let r2 = sqrt_floor(x2);
    assert(r1 <= r2) by (nonlinear_arith)
        requires
            0 <= r1,
            0 <= r2,
            r1 * r1 <= x1,
            x1 <= x2,
            x2 < (r2 + 1) * (r2 + 1),
    ;
}

/// The envelope never shrinks as the exponent grows.
pub proof fn lemma_pow_cap_monotone(n1: nat, n2: nat)
    requires
        n1 <= n2,
    ensures
        0 < pow_cap(n1) <= pow_cap(n2),
    decreases n2,
{
    if n2 == 0 {
    } else if n1 == n2 {
        lemma_pow_cap_monotone((n2 - 1) as nat, (n2 - 1) as nat);
    } else {
        lemma_pow_cap_monotone(n1, (n2 - 1) as nat);
    }
}

/// The numeric value of the envelope at the largest accepted exponent.
pub proof fn lemma_pow_cap_top()
    ensures
        pow_cap(POW_EXP_MAX as nat) == 1152921504606846976000000int,
{
    reveal_with_fuel(pow_cap, 13);
}

/// Within the accepted argument range the power stays within its envelope.
pub proof fn lemma_fx_pow_bound(x: int, n: nat)
    requires
        0 <= x <= POW_ARG_MAX,
    ensures
        0 <= fx_pow_spec(x, n) <= pow_cap(n),
    decreases n,
{
    if n == 0 {
    } else {
        lemma_fx_pow_bound(x, (n - 1) as nat);
        let prev = fx_pow_spec(x, (n - 1) as nat);
        let cap = pow_cap((n - 1) as nat);
        assert(0 <= prev * x <= cap * x <= cap * (POW_ARG_MAX as int)) by (nonlinear_arith)
            requires
                0 <= prev <= cap,
                0 <= x <= POW_ARG_MAX,
        ;
        vstd::arithmetic::div_mod::lemma_div_pos_is_pos(prev * x, SCALE as int);
        vstd::arithmetic::div_mod::lemma_div_is_ordered(
            prev * x,
            cap * (POW_ARG_MAX as int),
            SCALE as int,
        );
        assert((cap * (POW_ARG_MAX as int)) / (SCALE as int) == 32 * cap) by (nonlinear_arith)
            requires
                0 <= cap,
                POW_ARG_MAX == 32 * SCALE,
                SCALE == 1_000_000,
        ;
    }
}

/// The truncating power is monotone in its base.
pub proof fn lemma_fx_pow_monotone(x1: int, x2: int, n: nat)
    requires
        0 <= x1 <= x2,
    ensures
        fx_pow_spec(x1, n) <= fx_pow_spec(x2, n),
    decreases n,
{
    if n == 0 {
    } else {
        lemma_fx_pow_monotone(x1, x2, (n - 1) as nat);
        let p1 = fx_pow_spec(x1, (n - 1) as nat);
        let p2 = fx_pow_spec(x2, (n - 1) as nat);
        lemma_fx_pow_nonneg(x1, (n - 1) as nat);
        assert(p1 * x1 <= p2 * x2) by (nonlinear_arith)
            requires
                0 <= p1 <= p2,
                0 <= x1 <= x2,
        ;
        vstd::arithmetic::div_mod::lemma_div_is_ordered(p1 * x1, p2 * x2, SCALE as int);
    }
}

/// The truncating power of a non-negative base is non-negative.
pub proof fn lemma_fx_pow_nonneg(x: int, n: nat)
    requires
        0 <= x,
    ensures
        0 <= fx_pow_spec(x, n),
    decreases n,
{
    if n == 0 {
    } else {
        lemma_fx_pow_nonneg(x, (n - 1) as nat);
        let prev = fx_pow_spec(x, (n - 1) as nat);
        assert(0 <= prev * x) by (nonlinear_arith)
            requires
                0 <= prev,
                0 <= x,
        ;
        vstd::arithmetic::div_mod::lemma_div_pos_is_pos(prev * x, SCALE as int);
    }
}

/// Any positive power of zero is exactly zero.
pub proof fn lemma_fx_pow_zero(n: nat)
    requires
        1 <= n,
    ensures
        fx_pow_spec(0, n) == 0,
{
    assert(fx_pow_spec(0, (n - 1) as nat) * 0 == 0);
}

/// The fixed-point product is monotone in each factor.
pub proof fn lemma_fx_mul_monotone(a1: int, a2: int, b1: int, b2: int)
    requires
        0 <= a1 <= a2,
        0 <= b1 <= b2,
    ensures
        0 <= fx_mul_spec(a1, b1) <= fx_mul_spec(a2, b2),
{
    assert(0 <= a1 * b1 <= a2 * b2) by (nonlinear_arith)
        requires
            0 <= a1 <= a2,
            0 <= b1 <= b2,
    ;
    vstd::arithmetic::div_mod::lemma_div_pos_is_pos(a1 * b1, SCALE as int);
    vstd::arithmetic::div_mod::lemma_div_is_ordered(a1 * b1, a2 * b2, SCALE as int);
}

/// A fixed-point product with one factor zero is zero.
pub proof fn lemma_fx_mul_zero(a: int)
    ensures
        fx_mul_spec(a, 0) == 0,
{
    assert(a * 0 == 0) by (nonlinear_arith);
}

/// Fixed-point multiplication of two non-negative values.
pub fn fx_mul(a: u64, b: u64) -> (r: u64)
    requires
        (a as int) * (b as int) <= (SCALE as int) * (u64::MAX as int),
    ensures
        r == fx_mul_spec(a as int, b as int),
{
    proof {
        assert((a as int) * (b as int) >= 0) by (nonlinear_arith);
        assert((a as int) * (b as int) <= (u64::MAX as int) * (u64::MAX as int))
            by (nonlinear_arith)
            requires
                a <= u64::MAX,
                b <= u64::MAX,
        ;
    }
    let p: u128 = (a as u128) * (b as u128);
    let q: u128 = p / (SCALE as u128);
    proof {
        assert(q <= u64::MAX) by {
            vstd::arithmetic::div_mod::lemma_div_is_ordered(
                p as int,
                (SCALE as int) * (u64::MAX as int),
                SCALE as int,
            );
            assert(((SCALE as int) * (u64::MAX as int)) / (SCALE as int) == u64::MAX as int)
                by (nonlinear_arith);
        };
    }
    q as u64
}

/// The absolute difference of two non-negative fixed-point values.
pub fn fx_abs_diff(a: u64, b: u64) -> (r: u64)
    ensures
        r == if a >= b { a - b } else { b - a },
{
    if a >= b {
        a - b
    } else {
        b - a
    }
}

/// Fixed-point interpolation from `v0` towards `v1`; the result is the exact
/// truncating convex combination and stays between the two endpoints.
pub fn fx_lerp(v0: u64, v1: u64, t: u64) -> (r: u64)
    requires
        t < SCALE,
    ensures
        r == lerp_spec(v0 as int, v1 as int, t as int),
        v0 <= v1 ==> v0 <= r <= v1,
        v1 <= v0 ==> v1 <= r <= v0,
{
    let s128: u128 = SCALE as u128;
    let t128: u128 = t as u128;
    proof {
        lemma_lerp_between(v0 as int, v1 as int, t as int);
    }
    let p: u128 = (s128 - t128) * (v0 as u128) + t128 * (v1 as u128);
    let q: u128 = p / s128;
    q as u64
}

/// The integer square root, rounded down, of any 128-bit value.
pub fn isqrt_u128(x: u128) -> (r: u64)
    ensures
        is_sqrt_floor(r as int, x as int),
{
    let mut lo: u128 = 0;
    let mut hi: u128 = 0x1_0000_0000_0000_0000;
    proof {
        assert((x as int) < (hi as int) * (hi as int)) by (nonlinear_arith)
            requires
                x <= u128::MAX,
                hi == 0x1_0000_0000_0000_0000u128,
        ;
    }
    while hi - lo > 1
        invariant
            lo < hi <= 0x1_0000_0000_0000_0000u128,
            (lo as int) * (lo as int) <= x as int,
            (x as int) < (hi as int) * (hi as int),
        decreases hi - lo,
    {
        let mid: u128 = lo + (hi - lo) / 2;
        proof {
            assert((mid as int) * (mid as int) <= (u128::MAX as int)) by (nonlinear_arith)
                requires
                    mid < 0x1_0000_0000_0000_0000u128,
            ;
        }
        let sq: u128 = mid * mid;
        if sq <= x {
            lo = mid;
        } else {
            hi = mid;
        }
    }
    lo as u64
}

/// The integer square root, rounded up: the least `r` with `r * r >= x`.
pub fn isqrt_ceil_u128(x: u128) -> (r: u64)
    requires
        x <= 0xffff_fffe_0000_0001u128,
    ensures
        r == sqrt_ceil(x as int),
        (r as int) * (r as int) >= x as int,
        x > 0 ==> r >= 1,
{
    let f: u64 = isqrt_u128(x);
    proof {
        assert((f as int) * (f as int) <= x < ((f + 1) as int) * ((f + 1) as int));
        lemma_sqrt_floor_is(f as int, x as int);
        assert(f <= 0xffff_ffffu64) by (nonlinear_arith)
            requires
                (f as int) * (f as int) <= x as int,
                x <= 0xffff_fffe_0000_0001u128,
                f >= 0,
        ;
    }
    let fsq: u128 = (f as u128) * (f as u128);
    if fsq == x {
        f
    } else {
        f + 1
    }
}

/// The truncating fixed-point power, `x` and the result in micro-units.
pub fn fx_pow(x: u64, n: u64) -> (r: u128)
    requires
        x <= POW_ARG_MAX,
        n <= POW_EXP_MAX,
    ensures
        r == fx_pow_spec(x as int, n as nat),
        r <= pow_cap(n as nat),
{
    let mut acc: u128 = SCALE as u128;
    let mut i: u64 = 0;
    proof {
        lemma_fx_pow_bound(x as int, n as nat);
        lemma_pow_cap_top();
    }
    while i < n
        invariant
            i <= n <= POW_EXP_MAX,
            x <= POW_ARG_MAX,
            acc == fx_pow_spec(x as int, i as nat),
            acc <= pow_cap(i as nat),
            pow_cap(POW_EXP_MAX as nat) == 1152921504606846976000000int,
        decreases n - i,
    {
        proof {
            lemma_pow_cap_monotone(i as nat, POW_EXP_MAX as nat);
            assert((acc as int) * (x as int) <= 1152921504606846976000000int * (POW_ARG_MAX as int))
                by (nonlinear_arith)
                requires
                    0 <= acc as int <= 1152921504606846976000000int,
                    0 <= x <= POW_ARG_MAX,
            ;
            lemma_fx_pow_bound(x as int, (i + 1) as nat);
        }
        let next: u128 = (acc * (x as u128)) / (SCALE as u128);
        acc = next;
        i = i + 1;
    }
    acc
}

} // verus!

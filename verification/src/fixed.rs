//! Integer arithmetic of the sim: 16.16 fixed point, the game's `a * b / c`,
//! and its random numbers.

use rand::Rng;
use vstd::prelude::*;

verus! {

/// The absolute value of an integer.
pub open spec fn abs(x: int) -> int {
    if x < 0 {
        -x
    } else {
        x
    }
}

/// Integer division rounding toward zero, as Rust's `/` on signed integers.
pub open spec fn trunc_div(a: int, b: int) -> int {
    if (a >= 0) == (b > 0) {
        abs(a) / abs(b)
    } else {
        -(abs(a) / abs(b))
    }
}

/// The remainder that goes with `trunc_div`, as Rust's `%` on signed integers.
pub open spec fn trunc_rem(a: int, b: int) -> int {
    a - b * trunc_div(a, b)
}

/// `a / b` rounding toward zero, without overflow.
pub fn div_trunc_i64(a: i64, b: i64) -> (q: i64)
    requires
        b != 0,
        !(a == i64::MIN && b == -1),
    ensures
        q == trunc_div(a as int, b as int),
{
    let ua: u64 = if a >= 0 {
        a as u64
    } else if a == i64::MIN {
        0x8000_0000_0000_0000u64
    } else {
        (-a) as u64
    };
    let ub: u64 = if b >= 0 {
        b as u64
    } else if b == i64::MIN {
        0x8000_0000_0000_0000u64
    } else {
        (-b) as u64
    };
    let uq = ua / ub;
    assert(uq == abs(a as int) / abs(b as int));
    if (a >= 0) == (b > 0) {
        assert(uq > i64::MAX ==> ub == 1 && ua == 0x8000_0000_0000_0000u64) by (nonlinear_arith)
            requires
                uq == ua / ub,
                ub >= 1,
                ua <= 0x8000_0000_0000_0000u64,
        ;
        uq as i64
    } else {
        if uq == 0x8000_0000_0000_0000u64 {
            i64::MIN
        } else {
            -(uq as i64)
        }
    }
}

/// `a / b` rounding toward zero, on 32 bits.
pub fn div_trunc_i32(a: i32, b: i32) -> (q: i32)
    requires
        b != 0,
        !(a == i32::MIN && b == -1),
    ensures
        q == trunc_div(a as int, b as int),
{
    let q = div_trunc_i64(a as i64, b as i64);
    assert(abs(q as int) <= abs(a as int)) by (nonlinear_arith)
        requires
            q == trunc_div(a as int, b as int),
            b != 0,
    {
        assert(abs(a as int) / abs(b as int) <= abs(a as int)) by (nonlinear_arith)
            requires b != 0;
    }
    proof {
        if q > i32::MAX {
            assert(a == i32::MIN && b == -1) by (nonlinear_arith)
                requires
                    q == trunc_div(a as int, b as int),
                    q > i32::MAX,
                    b != 0,
                    i32::MIN <= a <= i32::MAX,
            {
            }
        }
    }
    q as i32
}

/// The product of two 32-bit numbers is at most 2^62 in size.
pub(crate) proof fn lemma_i32_product_bounds(a: i32, b: i32)
    ensures
        -0x4000_0000_0000_0000 <= a * b <= 0x4000_0000_0000_0000,
{
    assert(-0x4000_0000_0000_0000 <= a * b <= 0x4000_0000_0000_0000) by (nonlinear_arith)
        requires
            -0x8000_0000 <= a <= 0x7fff_ffff,
            -0x8000_0000 <= b <= 0x7fff_ffff,
    ;
}

/// A division without remainder gives the exact quotient.
pub(crate) proof fn lemma_trunc_div_exact(a: int, b: int, q: int)
    requires
        b > 0,
        q >= 0,
        a == b * q,
    ensures
        trunc_div(a, b) == q,
{
    assert(a >= 0) by (nonlinear_arith)
        requires
            b > 0,
            q >= 0,
            a == b * q,
    ;
    assert(a / b == q) by (nonlinear_arith)
        requires
            b > 0,
            a == b * q,
    ;
}

/// `a % b` as Rust computes it on a positive divisor: the remainder of the
/// division toward zero, with the sign of `a`.
pub fn rem_trunc_i32(a: i32, b: i32) -> (r: i32)
    requires
        b > 0,
    ensures
        r == trunc_rem(a as int, b as int),
{
    let ua: u32 = if a >= 0 {
        a as u32
    } else if a == i32::MIN {
        0x8000_0000u32
    } else {
        (-a) as u32
    };
    let ub = b as u32;
    let ur = ua % ub;
    proof {
        vstd::arithmetic::div_mod::lemma_fundamental_div_mod(ua as int, ub as int);
        assert(ua == abs(a as int));
        assert(ub == abs(b as int));
        let q = (ua as int) / (ub as int);
        assert(trunc_div(a as int, b as int) == if a >= 0 {
            q
        } else {
            -q
        });
        assert(b * (-q) == -(b * q)) by (nonlinear_arith);
        assert(ua == ub * q + ur);
    }
    if a >= 0 {
        ur as i32
    } else {
        -(ur as i32)
    }
}

/// `a * b` in 16.16 fixed point, rounded to nearest (halves up).
pub open spec fn fmul16_spec(a: i32, b: i32) -> i32 {
    (((a * b) + 0x8000) / 0x10000) as i32
}

/// `a * b` in 16.16 fixed point.
pub fn fmul16(a: i32, b: i32) -> (r: i32)
    ensures
        r == fmul16_spec(a, b),
{
    proof {
        lemma_i32_product_bounds(a, b);
    }
    let p = (a as i64) * (b as i64) + 0x8000;
    let q = p >> 16u64;
    assert(q == p / 0x10000) by (bit_vector)
        requires
            q == p >> 16u64,
    ;
    q as i32
}

/// Multiplying by one in 16.16 gives back the number.
pub proof fn lemma_fmul16_one(a: i32)
    ensures
        fmul16_spec(a, 0x10000) == a,
{
    assert(((a * 0x10000) + 0x8000) / 0x10000 == a) by (nonlinear_arith);
}

/// The order of the factors does not matter.
pub proof fn lemma_fmul16_commutes(a: i32, b: i32)
    ensures
        fmul16_spec(a, b) == fmul16_spec(b, a),
{
    assert(a * b == b * a) by (nonlinear_arith);
}

/// `(a * b) / c` on 64 bits, as the game computes it all over, truncated to
/// 32 bits. The game aborts on a zero divisor.
pub fn mul_div_64(a: i32, b: i32, c: i32) -> (r: i32)
    requires
        c != 0,
    ensures
        r == trunc_div(a * b, c as int) as i32,
{
    proof {
        lemma_i32_product_bounds(a, b);
    }
    let p = (a as i64) * (b as i64);
    div_trunc_i64(p, c as i64) as i32
}

/// The same `(a * b) / c` with wrapping 64-bit arithmetic: on 32-bit inputs
/// neither operation wraps. A zero divisor is not allowed.
pub fn integer_overflow_happens_here(a: i32, b: i32, c: i32) -> (r: i32)
    requires
        c != 0,
    ensures
        r == trunc_div(a * b, c as int) as i32,
{
    mul_div_64(a, b, c)
}

/// The quotient of two 16.16 values: the value's bits taken as signed,
/// shifted up 16 bits, divided toward zero, and the low 32 bits kept; 0 for a
/// zero divisor.
pub open spec fn fixed_div16_spec(value: u32, divisor: i32) -> u32 {
    if divisor == 0 {
        0
    } else {
        trunc_div((value as i32) * 0x10000, divisor as int) as u32
    }
}

/// Divides two 16.16 values: the value's bits taken as signed, shifted up 16
/// bits, divided toward zero, and the low 32 bits kept. A zero divisor gives 0
/// (the missile guidance calls it with one); `SuppressionCounts::fixed_div_16`
/// also counts it.
pub fn fixed_div_16(value: u32, divisor: i32) -> (r: u32)
    ensures
        r == fixed_div16_spec(value, divisor),
        divisor == 0 ==> r == 0,
        divisor != 0 ==> r == trunc_div((value as i32) * 0x10000, divisor as int) as u32,
{
    if divisor == 0 {
        return 0;
    }
    let v = (value as i32 as i64) * 0x10000;
    div_trunc_i64(v, divisor as i64) as u32
}

/// A uniformly drawn number in `0..max`, from the thread's generator
/// (`rand::rng().random_range(0..max)`). The generator is seeded by the
/// operating system, so nothing is claimed of the value but its range.
#[verifier::external_body]
fn draw_below(max: i32) -> (r: i32)
    requires
        max > 0,
    ensures
        0 <= r < max,
{
    rand::rng().random_range(0..max)
}

/// A random number in `0..max`, drawn afresh each call in place of the game's
/// table of pregenerated ones. The game aborts on a `max` that is not positive.
pub fn random_int_below(max: i32) -> (r: i32)
    requires
        max > 0,
    ensures
        0 <= r < max,
{
    draw_below(max)
}

} // verus!

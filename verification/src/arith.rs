//! Machine-integer arithmetic, stated over the mathematical integers.

use vstd::prelude::*;

verus! {

/// Division that rounds toward zero.
pub open spec fn trunc_div(a: int, b: int) -> int {
    if a >= 0 {
        a / b
    } else {
        -((-a) / b)
    }
}

pub open spec fn fits_i128(x: int) -> bool {
    i128::MIN <= x <= i128::MAX
}

pub open spec fn fits_i32(x: int) -> bool {
    i32::MIN <= x <= i32::MAX
}

/// The value of `x` read as a two's-complement 32-bit integer.
pub open spec fn signed32(x: u32) -> int {
    if x <= i32::MAX {
        x as int
    } else {
        x - 0x1_0000_0000
    }
}

/// The low 64 bits of `x` in two's complement.
pub open spec fn low64(x: i128) -> u64 {
    (x as int % 0x1_0000_0000_0000_0000) as u64
}

pub fn to_signed32(x: u32) -> (r: i32)
    ensures
        r == signed32(x),
{
    assert(x <= 0x7fff_ffffu32 ==> x as i32 == x) by (bit_vector);
    assert(x > 0x7fff_ffffu32 ==> x as i32 == x - 0x1_0000_0000) by (bit_vector);
    #[verifier::truncate]
    (x as i32)
}

pub fn to_low64(x: i128) -> (r: u64)
    ensures
        r == low64(x),
{
    assert(x as u64 == x % 0x1_0000_0000_0000_0000i128) by (bit_vector);
    #[verifier::truncate]
    (x as u64)
}

/// Whether `q` is the quotient of `a` by `b` with the fraction cut off: what is
/// left over is smaller than the divisor and on the same side of zero as `a`.
pub open spec fn rounds_toward_zero(a: int, b: int, q: int) -> bool {
    &&& a >= 0 ==> q * b <= a < q * b + b
    &&& a <= 0 ==> q * b - b < a <= q * b
}

/// Cutting off the fraction leaves one quotient.
pub proof fn quotient_is_unique(a: int, b: int, p: int, q: int)
    requires
        b > 0,
        rounds_toward_zero(a, b, p),
        rounds_toward_zero(a, b, q),
    ensures
        p == q,
{
    assert(p == q) by (nonlinear_arith)
        requires
            b > 0,
            a >= 0 ==> p * b <= a < p * b + b,
            a <= 0 ==> p * b - b < a <= p * b,
            a >= 0 ==> q * b <= a < q * b + b,
            a <= 0 ==> q * b - b < a <= q * b,
    ;
}

/// Division cuts off the fraction.
pub proof fn division_rounds_toward_zero(a: int, b: int)
    requires
        b > 0,
    ensures
        rounds_toward_zero(a, b, trunc_div(a, b)),
        a >= 0 ==> trunc_div(a, b) == a / b,
        a <= 0 ==> trunc_div(a, b) == -((-a) / b),
{
    if a >= 0 {
        assert((a / b) * b <= a < (a / b) * b + b) by (nonlinear_arith)
            requires
                b > 0,
        ;
    } else {
        let q = (-a) / b;
        assert(q * b <= -a < q * b + b) by (nonlinear_arith)
            requires
                b > 0,
                q == (-a) / b,
        ;
        assert((-q) * b == -(q * b)) by (nonlinear_arith);
    }
    if a == 0 {
        assert(0int / b == 0) by (nonlinear_arith)
            requires
                b > 0,
        ;
    }
}

/// A number is in the range of `i128`, or of `i32`, exactly from the smallest to
/// the largest of them.
pub proof fn ranges_are_those_of_the_machine(x: int)
    ensures
        fits_i128(x) <==> -0x8000_0000_0000_0000_0000_0000_0000_0000 <= x
            <= 0x7fff_ffff_ffff_ffff_ffff_ffff_ffff_ffff,
        fits_i32(x) <==> -0x8000_0000 <= x <= 0x7fff_ffff,
{
}

/// Reading 32 bits as a signed number changes it by nothing or by 2^32, into
/// the signed range.
pub proof fn signed_reading_keeps_the_bits(x: u32)
    ensures
        -0x8000_0000 <= signed32(x) <= 0x7fff_ffff,
        signed32(x) == x || signed32(x) == x - 0x1_0000_0000,
{
}

/// The low 64 bits of a number differ from it by a multiple of 2^64. A number
/// that is not negative and below 2^64 is its own low half; one from -2^63 up is
/// read back by taking 2^64 off again.
pub proof fn low_half_keeps_small_numbers(x: i128)
    ensures
        low64(x) == (x as int) % 0x1_0000_0000_0000_0000,
        0 <= x < 0x1_0000_0000_0000_0000 ==> low64(x) == x,
        -0x8000_0000_0000_0000 <= x < 0 ==> low64(x) - 0x1_0000_0000_0000_0000 == x,
{
}

pub proof fn lemma_trunc_div_neg(a: int, b: int)
    requires
        b > 0,
    ensures
        trunc_div(-a, b) == -trunc_div(a, b),
{
}

/// Truncation stays within a bound that is a multiple of the divisor.
pub proof fn lemma_trunc_div_bounds(a: int, b: int, q: int)
    requires
        b > 0,
        0 <= q,
        -(q * b) <= a <= q * b,
    ensures
        -q <= trunc_div(a, b) <= q,
        a >= 0 ==> trunc_div(a, b) >= 0,
        a <= 0 ==> trunc_div(a, b) <= 0,
{
    if a >= 0 {
        assert(0 <= a / b <= q) by (nonlinear_arith)
            requires
                b > 0,
                0 <= a <= q * b,
        ;
    } else {
        assert(0 <= (-a) / b <= q) by (nonlinear_arith)
            requires
                b > 0,
                0 <= -a <= q * b,
        ;
    }
}

} // verus!

//! Integer arithmetic shared by the geometry: products that cannot overflow
//! and division rounded to the nearest integer.
use vstd::prelude::*;

verus! {

/// The product of two 32-bit numbers.
pub fn mul32(a: u32, b: u32) -> (r: u64)
    ensures
        r == a * b,
{
    assert(a * b <= 0xffff_ffff * 0xffff_ffff) by (nonlinear_arith)
        requires
            a <= 0xffff_ffff,
            b <= 0xffff_ffff,
    ;
    (a as u64) * (b as u64)
}

/// The number of bytes of a raster of eight-bit RGBA pixels.
pub fn rgba_len(width: u32, height: u32) -> (r: u128)
    ensures
        r == 4 * width * height,
{
    let area = mul32(width, height);
    assert(4 * (width * height) == 4 * width * height) by (nonlinear_arith);
    4u128 * (area as u128)
}

/// `n / d` rounded to the nearest integer, halves away from zero, for a
/// numerator that is not negative and a positive denominator.
pub open spec fn round_div(n: int, d: int) -> int {
    (2 * n + d) / (2 * d)
}

/// Division rounded to the nearest integer, halves away from zero.
pub fn div_round(n: u64, d: u64) -> (r: u64)
    requires
        d > 0,
    ensures
        r == round_div(n as int, d as int),
{
    let num: u128 = 2u128 * (n as u128) + (d as u128);
    let den: u128 = 2u128 * (d as u128);
    let q: u128 = num / den;
    assert(q <= n + 1) by (nonlinear_arith)
        requires
            q == num / den,
            num == 2 * n + d,
            den == 2 * d,
            d > 0,
    ;
    assert(q <= u64::MAX) by (nonlinear_arith)
        requires
            q == num / den,
            num == 2 * n + d,
            den == 2 * d,
            d > 0,
            n <= u64::MAX,
    ;
    q as u64
}

} // verus!

//! Two's-complement arithmetic on `i32`, stated over mathematical integers.

use vstd::prelude::*;

verus! {

/// The `i32` congruent to `x` modulo 2^32.
pub open spec fn wrap(x: int) -> i32 {
    let r: int = x % 0x1_0000_0000;
    if r > i32::MAX {
        (r - 0x1_0000_0000) as i32
    } else {
        r as i32
    }
}

/// A value that fits an `i32` is left as it is.
pub proof fn lemma_wrap_exact(x: int)
    requires
        i32::MIN <= x <= i32::MAX,
    ensures
        wrap(x) == x,
{
}

/// `wrap(x)` differs from `x` by a multiple of 2^32.
pub proof fn lemma_wrap_congruent(x: int)
    ensures
        (x - wrap(x)) % 0x1_0000_0000 == 0,
        wrap(x) == x - 0x1_0000_0000 * ((x - wrap(x)) / 0x1_0000_0000),
{
}

/// Two integers that differ by a multiple of 2^32 wrap to the same `i32`.
pub proof fn lemma_wrap_shift(x: int, k: int)
    ensures
        wrap(x + 0x1_0000_0000 * k) == wrap(x),
{
    vstd::arithmetic::div_mod::lemma_mod_multiples_vanish(k, x, 0x1_0000_0000);
}

/// Wrapping the operands of a sum first does not change the wrapped sum.
pub proof fn lemma_wrap_add(x: int, y: int)
    ensures
        wrap(wrap(x) + wrap(y)) == wrap(x + y),
        wrap(wrap(x) + y) == wrap(x + y),
        wrap(x + wrap(y)) == wrap(x + y),
{
    lemma_wrap_congruent(x);
    lemma_wrap_congruent(y);
    let kx: int = (x - wrap(x)) / 0x1_0000_0000;
    let ky: int = (y - wrap(y)) / 0x1_0000_0000;
    lemma_wrap_shift(wrap(x) + wrap(y), kx + ky);
    lemma_wrap_shift(wrap(x) + y, kx);
    lemma_wrap_shift(x + wrap(y), ky);
}

/// Wrapping the operands of a difference first does not change the wrapped
/// difference.
pub proof fn lemma_wrap_sub(x: int, y: int)
    ensures
        wrap(wrap(x) - wrap(y)) == wrap(x - y),
        wrap(wrap(x) - y) == wrap(x - y),
        wrap(x - wrap(y)) == wrap(x - y),
{
    lemma_wrap_congruent(x);
    lemma_wrap_congruent(y);
    let kx: int = (x - wrap(x)) / 0x1_0000_0000;
    let ky: int = (y - wrap(y)) / 0x1_0000_0000;
    lemma_wrap_shift(wrap(x) - wrap(y), kx - ky);
    lemma_wrap_shift(wrap(x) - y, kx);
    lemma_wrap_shift(x - wrap(y), -ky);
}

/// Wrapping one factor of a product first does not change the wrapped
/// product.
pub proof fn lemma_wrap_mul_right(x: int, y: int)
    ensures
        wrap(x * wrap(y)) == wrap(x * y),
{
    lemma_wrap_congruent(y);
    let ky: int = (y - wrap(y)) / 0x1_0000_0000;
    assert(x * y == x * wrap(y) + 0x1_0000_0000 * (x * ky)) by (nonlinear_arith)
        requires
            y == wrap(y) + 0x1_0000_0000 * ky,
    ;
    lemma_wrap_shift(x * wrap(y), x * ky);
}

/// Wrapping the factors of a product first does not change the wrapped
/// product.
pub proof fn lemma_wrap_mul(x: int, y: int)
    ensures
        wrap(wrap(x) * wrap(y)) == wrap(x * y),
        wrap(wrap(x) * y) == wrap(x * y),
        wrap(x * wrap(y)) == wrap(x * y),
{
    lemma_wrap_mul_right(x, y);
    lemma_wrap_mul_right(y, x);
    lemma_wrap_mul_right(wrap(x) as int, y);
    assert(y * x == x * y) by (nonlinear_arith);
    assert(y * wrap(x) == wrap(x) * y) by (nonlinear_arith);
}

/// `x + y` in two's complement.
pub fn add_wrap(x: i32, y: i32) -> (r: i32)
    ensures
        r == wrap(x + y),
{
    x.wrapping_add(y)
}

/// `x - y` in two's complement.
pub fn sub_wrap(x: i32, y: i32) -> (r: i32)
    ensures
        r == wrap(x - y),
{
    x.wrapping_sub(y)
}

/// `x * y` in two's complement.
pub fn mul_wrap(x: i32, y: i32) -> (r: i32)
    ensures
        r == wrap(x * y),
{
    x.wrapping_mul(y)
}

} // verus!

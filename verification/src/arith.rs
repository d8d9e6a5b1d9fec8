//! Shared arithmetic: bounds for products of 32-bit values, and the
//! truncating halving that the area formulas use.

use vstd::prelude::*;

verus! {

/// Halving that truncates toward zero, as the `/` of the executable code
/// does on a possibly negative dividend.
pub open spec fn div2_trunc(p: int) -> int {
    if p >= 0 {
        p / 2
    } else {
        -((-p) / 2)
    }
}

/// A product of two 32-bit signed values stays within 62 bits.
pub proof fn lemma_i32_mul_bounds(a: int, b: int)
    requires
        -2147483648 <= a <= 2147483647,
        -2147483648 <= b <= 2147483647,
    ensures
        -4611686018427387904 <= a * b <= 4611686018427387904,
{
    assert(-4611686018427387904 <= a * b <= 4611686018427387904) by (nonlinear_arith)
        requires
            -2147483648 <= a <= 2147483647,
            -2147483648 <= b <= 2147483647,
    ;
}

/// A square is never negative.
pub proof fn lemma_square_nonneg(a: int)
    ensures
        a * a >= 0,
{
    assert(a * a >= 0) by (nonlinear_arith);
}

} // verus!

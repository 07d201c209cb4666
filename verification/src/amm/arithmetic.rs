//! Facts about rounded-down quotients that the pools' laws rest on.

use vstd::arithmetic::div_mod::{lemma_div_is_ordered, lemma_div_multiples_vanish, lemma_fundamental_div_mod, lemma_mod_pos_bound};
use vstd::prelude::*;

verus! {

/// A quotient is at most `x` where the dividend is at most `x` times the
/// divisor.
pub(crate) proof fn lemma_quotient_at_most(n: int, d: int, x: int)
    requires
        0 < d,
        n <= x * d,
    ensures
        n / d <= x,
{
    lemma_div_is_ordered(n, x * d, d);
    lemma_div_multiples_vanish(x, d);
    assert(x * d == d * x) by (nonlinear_arith);
}

/// A quotient times the divisor does not exceed the dividend, and the
/// quotient of a dividend that is not negative is not negative.
pub(crate) proof fn lemma_quotient_rounds_down(n: int, d: int)
    requires
        0 <= n,
        0 < d,
    ensures
        0 <= n / d,
        (n / d) * d <= n,
        n < (n / d + 1) * d,
{
    lemma_fundamental_div_mod(n, d);
    lemma_mod_pos_bound(n, d);
    assert((n / d) * d == d * (n / d)) by (nonlinear_arith);
    assert((n / d + 1) * d == d * (n / d) + d) by (nonlinear_arith);
    assert(0 <= n / d) by (nonlinear_arith)
        requires
            0 <= n,
            0 < d,
            n < d * (n / d) + d,
    ;
}

} // verus!

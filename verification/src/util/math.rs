//! Integer arithmetic helpers.

use vstd::prelude::*;

verus! {

/// The quotient of `n` by `d`, rounded up.
pub open spec fn spec_ceil_div(n: int, d: int) -> int {
    if n % d == 0 {
        n / d
    } else {
        n / d + 1
    }
}

/// Divides `n` by `d` and rounds the quotient up.
pub fn ceil_div(n: u32, d: u32) -> (r: u32)
    requires
        d != 0,
    ensures
        r == spec_ceil_div(n as int, d as int),
{
    if n % d == 0 {
        n / d
    } else {
        assert(n / d < n) by (nonlinear_arith)
            requires
                n % d != 0,
                d != 0,
        ;
        n / d + 1
    }
}

/// The number of `d`-sized units that `ceil_div` counts covers `n`, and one
/// unit fewer does not.
pub proof fn lemma_ceil_div_covers(n: int, d: int)
    requires
        0 <= n,
        0 < d,
    ensures
        spec_ceil_div(n, d) * d >= n,
        n > 0 ==> (spec_ceil_div(n, d) - 1) * d < n,
        spec_ceil_div(n, d) >= 0,
{
    vstd::arithmetic::div_mod::lemma_fundamental_div_mod(n, d);
    vstd::arithmetic::div_mod::lemma_mod_bound(n, d);
    vstd::arithmetic::div_mod::lemma_div_pos_is_pos(n, d);
    assert(d * (n / d) == (n / d) * d) by (nonlinear_arith);
    assert((n / d + 1) * d == (n / d) * d + d) by (nonlinear_arith);
    assert((n / d - 1) * d == (n / d) * d - d) by (nonlinear_arith);
}

} // verus!

//! Division and remainder by the capacity, as the cursor needs them.

use vstd::arithmetic::div_mod::{
    lemma_fundamental_div_mod, lemma_fundamental_div_mod_converse, lemma_mod_bound,
};
use vstd::prelude::*;

verus! {

/// Counting one further either moves the remainder on by one, or takes it
/// back to zero and the quotient up by one.
pub proof fn lemma_div_mod_step(x: int, d: int)
    requires
        0 <= x,
        0 < d,
    ensures
        (x + 1) % d == if x % d + 1 == d {
            0
        } else {
            x % d + 1
        },
        (x + 1) / d == if x % d + 1 == d {
            x / d + 1
        } else {
            x / d
        },
{
    let q = x / d;
    let r = x % d;
    lemma_fundamental_div_mod(x, d);
    lemma_mod_bound(x, d);
    if r + 1 == d {
        assert(x + 1 == (q + 1) * d + 0) by (nonlinear_arith)
            requires
                x == d * q + r,
                r + 1 == d,
        ;
        lemma_fundamental_div_mod_converse(x + 1, d, q + 1, 0);
    } else {
        assert(x + 1 == q * d + (r + 1)) by (nonlinear_arith)
            requires
                x == d * q + r,
        ;
        lemma_fundamental_div_mod_converse(x + 1, d, q, r + 1);
    }
}

/// Two numbers less than `d` apart have different remainders.
pub proof fn lemma_mod_differs(x: int, gap: int, d: int)
    requires
        0 <= x,
        0 < gap < d,
    ensures
        (x + gap) % d != x % d,
{
    let q1 = x / d;
    let q2 = (x + gap) / d;
    lemma_fundamental_div_mod(x, d);
    lemma_fundamental_div_mod(x + gap, d);
    if (x + gap) % d == x % d {
        assert(gap == d * (q2 - q1)) by (nonlinear_arith)
            requires
                x == d * q1 + x % d,
                x + gap == d * q2 + (x + gap) % d,
                (x + gap) % d == x % d,
        ;
        assert(false) by (nonlinear_arith)
            requires
                gap == d * (q2 - q1),
                0 < gap < d,
        ;
    }
}

} // verus!

//! What the rest of the proxy leans on.

pub mod conn_tracker;
pub mod interrupt;
pub mod logging;
pub mod task_tracker;

use vstd::prelude::*;

verus! {

/// The remainder of the next number is the next remainder, or zero after the largest one.
pub proof fn lemma_next_mod(n: int, m: int)
    requires
        m > 0,
    ensures
        (n + 1) % m == if n % m + 1 == m {
            0
        } else {
            n % m + 1
        },
{
    vstd::arithmetic::div_mod::lemma_fundamental_div_mod(n, m);
    let q = n / m;
    let r = n % m;
    if r + 1 == m {
        assert(n + 1 == (q + 1) * m) by (nonlinear_arith)
            requires
                n == m * q + r,
                r + 1 == m,
        ;
        vstd::arithmetic::div_mod::lemma_fundamental_div_mod_converse(n + 1, m, q + 1, 0);
    } else {
        assert(n + 1 == q * m + (r + 1)) by (nonlinear_arith)
            requires
                n == m * q + r,
        ;
        vstd::arithmetic::div_mod::lemma_fundamental_div_mod_converse(n + 1, m, q, r + 1);
    }
}

} // verus!

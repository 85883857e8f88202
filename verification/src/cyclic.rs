//! Arithmetic of positions on a cycle.

use vstd::prelude::*;
use vstd::arithmetic::div_mod::{lemma_mod_add_multiples_vanish, lemma_mod_self_0, lemma_small_mod};

verus! {

/// One step forward or back from a position on a cycle of `n` positions,
/// written with `%` and written as a wrap-around, is the same position.
pub proof fn lemma_cyclic_step(i: int, n: int)
    requires
        0 <= i < n,
    ensures
        (i + 1) % n == (if i + 1 == n { 0 } else { i + 1 }),
        (i + n - 1) % n == (if i == 0 { n - 1 } else { i - 1 }),
{
    if i + 1 == n {
        lemma_mod_self_0(n);
    } else {
        lemma_small_mod((i + 1) as nat, n as nat);
    }
    if i == 0 {
        lemma_small_mod((n - 1) as nat, n as nat);
    } else {
        lemma_mod_add_multiples_vanish(i - 1, n);
        lemma_small_mod((i - 1) as nat, n as nat);
    }
}

} // verus!

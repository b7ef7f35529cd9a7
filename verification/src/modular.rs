//! A fact about remainders that the index arithmetic of the buffers and of
//! the round-robin cursor rests on.
use vstd::prelude::*;

verus! {

/// Below twice the modulus, taking the remainder subtracts the modulus at
/// most once.
pub(crate) proof fn lemma_mod_once(x: int, m: int)
    requires
        0 < m,
        0 <= x < 2 * m,
    ensures
        x % m == (if x < m { x } else { x - m }),
{
    if x < m {
        vstd::arithmetic::div_mod::lemma_small_mod(x as nat, m as nat);
    } else {
        vstd::arithmetic::div_mod::lemma_small_mod((x - m) as nat, m as nat);
        vstd::arithmetic::div_mod::lemma_mod_sub_multiples_vanish(x, m);
    }
}

} // verus!

//! Primality of unsigned integers, by trial division up to the square root.

use vstd::prelude::*;
use vstd::arithmetic::div_mod::{
    lemma_fundamental_div_mod, lemma_fundamental_div_mod_converse_mod,
};

verus! {

/// `i` is prime: at least two, and nothing between divides it.
pub open spec fn is_prime_spec(i: int) -> bool {
    i >= 2 && forall|d: int| 2 <= d < i ==> #[trigger] (i % d) != 0
}

/// Relies on `num_integer::Roots::sqrt`: the truncated principal square root,
/// the `r` with `r * r <= i < (r + 1) * (r + 1)`.
#[verifier::external_body]
fn int_sqrt(i: u64) -> (r: u64)
    ensures
        r * r <= i < (r + 1) * (r + 1),
{
    num_integer::Roots::sqrt(&i)
}

/// A divisor of `i` pairs with its cofactor; one of the two is at most the
/// square root.
proof fn lemma_divisor_pair(i: int, s: int, d: int)
    requires
        i >= 2,
        s >= 1,
        s * s <= i < (s + 1) * (s + 1),
        2 <= d < i,
        i % d == 0,
    ensures
        exists|e: int| 2 <= e <= s && #[trigger] (i % e) == 0,
{
    lemma_fundamental_div_mod(i, d);
    let q = i / d;
    assert(i == d * q);
    assert(q >= 1) by (nonlinear_arith)
        requires i == d * q, i >= 2, 2 <= d < i,
    {
    }
    assert(q >= 2) by (nonlinear_arith)
        requires i == d * q, i >= 2, 2 <= d < i, q >= 1,
    {
    }
    assert(i % q == 0) by {
        lemma_fundamental_div_mod_converse_mod(i, q, d, 0);
    }
    if d <= s {
        assert(2 <= d <= s && i % d == 0);
    } else {
        assert(q <= s) by (nonlinear_arith)
            requires i == d * q, d >= s + 1, i < (s + 1) * (s + 1), q >= 1, s >= 1,
        {
        }
        assert(2 <= q <= s && i % q == 0);
    }
}

/// True iff `i` is prime.
pub fn is_prime(i: u64) -> (r: bool)
    ensures
        r == is_prime_spec(i as int),
{
    if i < 2 {
        return false;
    }
    let s = int_sqrt(i);
    proof {
        assert(1 <= s < i) by (nonlinear_arith)
            requires s * s <= i < (s + 1) * (s + 1), i >= 2,
        {
        }
    }
    let mut x: u64 = 2;
    while x <= s
        invariant
            2 <= x,
            i >= 2,
            s * s <= i < (s + 1) * (s + 1),
            1 <= s < i,
            forall|d: int| 2 <= d < x ==> #[trigger] (i as int % d) != 0,
        decreases s + 1 - x,
    {
        if i % x == 0 {
            proof {
                assert(2 <= x < i && (i as int % x as int) == 0);
            }
            return false;
        }
        x = x + 1;
    }
    proof {
        if !is_prime_spec(i as int) {
            let d = choose|d: int| 2 <= d < i && #[trigger] (i as int % d) == 0;
            lemma_divisor_pair(i as int, s as int, d);
            let e = choose|e: int| 2 <= e <= s && #[trigger] (i as int % e) == 0;
            assert(e < x);
            assert(i as int % e != 0);
        }
    }
    true
}

} // verus!

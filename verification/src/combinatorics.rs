//! Binomial coefficients: their definition by Pascal's rule, their relation
//! to factorials, and their exact computation.

use crate::integer::{int_of, integer_from_u64, product_of, quotient_of, truncated_quotient};
use num_bigint::BigInt;
use vstd::prelude::*;

verus! {

/// `n!`, the product of the integers from 1 to `n`.
pub open spec fn factorial(n: nat) -> nat
    decreases n,
{
    if n == 0 {
        1
    } else {
        n * factorial((n - 1) as nat)
    }
}

/// The product of the integers above `lo` up to `hi`; 1 when there are none.
pub open spec fn product_above(lo: nat, hi: nat) -> nat
    decreases hi,
{
    if hi <= lo {
        1
    } else {
        hi * product_above(lo, (hi - 1) as nat)
    }
}

/// The binomial coefficient C(n, k): the number of ways to pick `k` items
/// out of `n`, by Pascal's rule. It is 0 when `k` exceeds `n`.
pub open spec fn binomial(n: nat, k: nat) -> nat
    decreases n,
{
    if k == 0 {
        1
    } else if n == 0 {
        0
    } else {
        binomial((n - 1) as nat, (k - 1) as nat) + binomial((n - 1) as nat, k)
    }
}

/// Why a coefficient was not computed.
#[derive(Debug, Clone, Copy, PartialEq, Eq, Structural)]
pub enum CoefficientError {
    /// More items were to be picked than there are.
    SelectionExceedsTotal,
}

pub proof fn lemma_factorial_positive(n: nat)
    ensures
        factorial(n) > 0,
    decreases n,
{
    if n > 0 {
        lemma_factorial_positive((n - 1) as nat);
        assert(n * factorial((n - 1) as nat) > 0) by (nonlinear_arith)
            requires
                n > 0,
                factorial((n - 1) as nat) > 0,
        ;
    }
}

/// `product_above(lo, hi)` is `hi! / lo!`, stated without division.
pub proof fn lemma_product_above_completes_factorial(lo: nat, hi: nat)
    requires
        lo <= hi,
    ensures
        product_above(lo, hi) * factorial(lo) == factorial(hi),
    decreases hi,
{
    if hi > lo {
        let below = (hi - 1) as nat;
        lemma_product_above_completes_factorial(lo, below);
        let p = product_above(lo, below) as int;
        let f = factorial(lo) as int;
        assert((hi * p) * f == hi * (p * f)) by (nonlinear_arith);
        assert(product_above(lo, hi) == hi * p);
        assert(factorial(hi) == hi * factorial(below));
    } else {
        assert(product_above(lo, hi) == 1);
    }
}

/// There is no way to pick more items than there are.
pub proof fn lemma_binomial_beyond(n: nat, k: nat)
    requires
        k > n,
    ensures
        binomial(n, k) == 0,
    decreases n,
{
    if n > 0 {
        lemma_binomial_beyond((n - 1) as nat, (k - 1) as nat);
        lemma_binomial_beyond((n - 1) as nat, k);
    }
}

/// There is one way to pick nothing and one way to pick everything.
pub proof fn lemma_binomial_ends(n: nat)
    ensures
        binomial(n, 0) == 1,
        binomial(n, n) == 1,
    decreases n,
{
    if n > 0 {
        lemma_binomial_ends((n - 1) as nat);
        lemma_binomial_beyond((n - 1) as nat, n);
    }
}

/// C(n, k) · k! · (n − k)! = n!.
pub proof fn lemma_binomial_factorials(n: nat, k: nat)
    requires
        k <= n,
    ensures
        binomial(n, k) * factorial(k) * factorial((n - k) as nat) == factorial(n),
    decreases n,
{
    lemma_binomial_ends(n);
    if k == 0 {
        assert(1 * 1 * factorial(n) == factorial(n));
    } else if k == n {
        assert(1 * factorial(n) * 1 == factorial(n));
    } else {
        let m = (n - 1) as nat;
        lemma_binomial_factorials(m, (k - 1) as nat);
        lemma_binomial_factorials(m, k);
        let x = binomial(m, (k - 1) as nat) as int;
        let y = binomial(m, k) as int;
        let fk1 = factorial((k - 1) as nat) as int;
        let fk = factorial(k) as int;
        let fr1 = factorial((n - k - 1) as nat) as int;
        let fr = factorial((n - k) as nat) as int;
        let fm = factorial(m) as int;
        assert(m - (k - 1) == n - k);
        assert(m - k == n - k - 1);
        assert(x * fk * fr == k * fm) by (nonlinear_arith)
            requires
                x * fk1 * fr == fm,
                fk == k * fk1,
        ;
        assert(y * fk * fr == (n - k) * fm) by (nonlinear_arith)
            requires
                y * fk * fr1 == fm,
                fr == (n - k) * fr1,
        ;
        assert((x + y) * fk * fr == n * fm) by (nonlinear_arith)
            requires
                x * fk * fr == k * fm,
                y * fk * fr == (n - k) * fm,
        ;
    }
}

/// Picking `k` items is leaving `n − k` behind: C(n, k) = C(n, n − k).
pub proof fn lemma_binomial_symmetric(n: nat, k: nat)
    requires
        k <= n,
    ensures
        binomial(n, k) == binomial(n, (n - k) as nat),
{
    let other = (n - k) as nat;
    lemma_binomial_factorials(n, k);
    lemma_binomial_factorials(n, other);
    lemma_factorial_positive(k);
    lemma_factorial_positive(other);
    let c = binomial(n, k) as int;
    let d = binomial(n, other) as int;
    let fk = factorial(k) as int;
    let fo = factorial(other) as int;
    assert(n - other == k);
    assert(c == d) by (nonlinear_arith)
        requires
            c * fk * fo == d * fo * fk,
            fk > 0,
            fo > 0,
    ;
}

/// The quotient of the product of the integers above `n − k` up to `n` by
/// `k!` is exact and is C(n, k).
proof fn lemma_quotient_is_binomial(n: nat, k: nat)
    requires
        k <= n,
    ensures
        factorial(k) > 0,
        truncated_quotient(product_above((n - k) as nat, n) as int, factorial(k) as int)
            == binomial(n, k),
{
    let rest = (n - k) as nat;
    lemma_binomial_factorials(n, k);
    lemma_product_above_completes_factorial(rest, n);
    lemma_factorial_positive(k);
    lemma_factorial_positive(rest);
    let c = binomial(n, k) as int;
    let num = product_above(rest, n) as int;
    let fk = factorial(k) as int;
    let fr = factorial(rest) as int;
    assert(num == c * fk) by (nonlinear_arith)
        requires
            c * fk * fr == num * fr,
            fr > 0,
    ;
    assert(num / fk == c) by (nonlinear_arith)
        requires
            num == c * fk,
            fk > 0,
    ;
}

/// The binomial coefficient C(n, r), exactly.
///
/// The smaller of `r` and `n − r` is taken for the number of factors, by
/// symmetry; the product of the integers above the larger one up to `n` is
/// then divided by the factorial of the smaller one. All products are big
/// integers, so no intermediate value is narrowed. Picking more than `n`
/// items is refused.
pub fn binomial_coefficient(n: u32, r: u32) -> (res: Result<BigInt, CoefficientError>)
    ensures
        match res {
            Ok(c) => r <= n && int_of(c) == binomial(n as nat, r as nat),
            Err(e) => r > n && e == CoefficientError::SelectionExceedsTotal,
        },
{
    if r > n {
        return Err(CoefficientError::SelectionExceedsTotal);
    }
    let k: u32 = if r > n - r { n - r } else { r };
    let rest: u32 = n - k;
    let mut numerator = integer_from_u64(1);
    let mut i: u32 = rest;
    while i < n
        invariant
            rest <= i <= n,
            int_of(numerator) == product_above(rest as nat, i as nat),
        decreases n - i,
    {
        i = i + 1;
        let factor = integer_from_u64(i as u64);
        numerator = product_of(&factor, &numerator);
    }
    let mut denominator = integer_from_u64(1);
    let mut j: u32 = 0;
    while j < k
        invariant
            j <= k,
            int_of(denominator) == factorial(j as nat),
        decreases k - j,
    {
        j = j + 1;
        let factor = integer_from_u64(j as u64);
        denominator = product_of(&factor, &denominator);
    }
    proof {
        lemma_quotient_is_binomial(n as nat, k as nat);
        lemma_binomial_symmetric(n as nat, r as nat);
    }
    Ok(quotient_of(&numerator, &denominator))
}

} // verus!

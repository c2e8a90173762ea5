//! The laws of the library: the binomial theorem, which ties the expansion
//! of a binomial to the power it stands for, the sum of a row of binomial
//! coefficients, and the soundness of partial substitution.

use crate::combinatorics::{binomial, lemma_binomial_beyond, lemma_binomial_ends};
use crate::expansion::{
    evaluation, expansion, expansion_term, term_at_a, term_at_b, term_value, terms_at_a,
    terms_at_b, BinomialView, TermView,
};
use vstd::arithmetic::power::{lemma1_pow, lemma_pow0, lemma_pow_distributes, lemma_pow_multiplies, pow};
use vstd::prelude::*;

verus! {

/// Term `i` of the binomial sum for `(x + y)^n`: `C(n, i) · x^(n−i) · y^i`.
pub open spec fn power_sum_term(x: int, y: int, n: nat, i: nat) -> int {
    binomial(n, i) * pow(x, (n - i) as nat) * pow(y, i)
}

/// The sum of the first `count` terms of the binomial sum for `(x + y)^n`.
pub open spec fn power_sum(x: int, y: int, n: nat, count: nat) -> int
    decreases count,
{
    if count == 0 {
        0
    } else {
        power_sum(x, y, n, (count - 1) as nat) + power_sum_term(x, y, n, (count - 1) as nat)
    }
}

/// The sum of the first `count` binomial coefficients of row `n`.
pub open spec fn row_sum(n: nat, count: nat) -> int
    decreases count,
{
    if count == 0 {
        0
    } else {
        row_sum(n, (count - 1) as nat) + binomial(n, (count - 1) as nat)
    }
}

/// The base of the power that a binomial stands for at `a` and `b`:
/// `a_coeff · a^a_exp + b_coeff · b^b_exp`.
pub open spec fn base_value(bv: BinomialView, a: int, b: int) -> int {
    bv.a_coeff * pow(a, bv.a_exp) + bv.b_coeff * pow(b, bv.b_exp)
}

proof fn lemma_pow_next(b: int, e: nat)
    ensures
        pow(b, e + 1) == b * pow(b, e),
{
    reveal(pow);
}

/// Pascal's rule lifted to the terms of the binomial sum.
proof fn lemma_power_sum_term_next(x: int, y: int, n: nat, i: nat)
    requires
        i <= n,
    ensures
        power_sum_term(x, y, n + 1, i + 1) == x * power_sum_term(x, y, n, i + 1) + y
            * power_sum_term(x, y, n, i),
{
    let c0 = binomial(n, i) as int;
    let c1 = binomial(n, i + 1) as int;
    let px = pow(x, (n - i) as nat);
    let px_less = pow(x, (n - (i + 1)) as nat);
    let py = pow(y, i);
    let py_more = pow(y, i + 1);
    assert(binomial(n + 1, i + 1) == c0 + c1);
    assert((n + 1) - (i + 1) == n - i);
    lemma_pow_next(y, i);
    assert((c0 + c1) * px * py_more == c0 * px * py_more + c1 * px * py_more)
        by (nonlinear_arith);
    assert(c0 * px * (y * py) == y * (c0 * px * py)) by (nonlinear_arith);
    if i < n {
        lemma_pow_next(x, (n - i - 1) as nat);
        assert(c1 * (x * px_less) * py_more == x * (c1 * px_less * py_more))
            by (nonlinear_arith);
    } else {
        lemma_binomial_beyond(n, i + 1);
        assert(0 * px * py_more == x * (0 * px_less * py_more)) by (nonlinear_arith);
    }
}

/// Pascal's rule lifted to the partial sums of the binomial sum.
proof fn lemma_power_sum_next(x: int, y: int, n: nat, m: nat)
    requires
        m <= n + 1,
    ensures
        power_sum(x, y, n + 1, m + 1) == x * power_sum(x, y, n, m + 1) + y * power_sum(
            x,
            y,
            n,
            m,
        ),
    decreases m,
{
    if m == 0 {
        reveal_with_fuel(power_sum, 2);
        lemma_binomial_ends(n);
        lemma_binomial_ends(n + 1);
        lemma_pow0(y);
        lemma_pow_next(x, n);
        let px = pow(x, n);
        assert(power_sum(x, y, n + 1, 1) == 1 * pow(x, n + 1) * 1);
        assert(power_sum(x, y, n, 1) == 1 * px * 1);
        assert(power_sum(x, y, n, 0) == 0);
        assert(1 * (x * px) * 1 == x * (1 * px * 1) + y * 0) by (nonlinear_arith);
    } else {
        let k = (m - 1) as nat;
        lemma_power_sum_next(x, y, n, k);
        lemma_power_sum_term_next(x, y, n, k);
        let s1 = power_sum(x, y, n, m);
        let s0 = power_sum(x, y, n, k);
        let t1 = power_sum_term(x, y, n, m);
        let t0 = power_sum_term(x, y, n, k);
        assert(power_sum(x, y, n + 1, m + 1) == power_sum(x, y, n + 1, m) + power_sum_term(
            x,
            y,
            n + 1,
            m,
        ));
        assert(power_sum(x, y, n, m + 1) == s1 + t1);
        assert(s1 == s0 + t0);
        assert((x * s1 + y * s0) + (x * t1 + y * t0) == x * (s1 + t1) + y * (s0 + t0))
            by (nonlinear_arith);
    }
}

/// The binomial theorem: the sum of `C(n, i) · x^(n−i) · y^i` over `i` from
/// 0 to `n` is `(x + y)^n`.
pub proof fn lemma_binomial_theorem(x: int, y: int, n: nat)
    ensures
        power_sum(x, y, n, n + 1) == pow(x + y, n),
    decreases n,
{
    if n == 0 {
        reveal_with_fuel(power_sum, 2);
        lemma_pow0(x);
        lemma_pow0(y);
        lemma_pow0(x + y);
        assert(binomial(0, 0) == 1);
    } else {
        let m = (n - 1) as nat;
        lemma_binomial_theorem(x, y, m);
        lemma_power_sum_next(x, y, m, n);
        lemma_binomial_beyond(m, n);
        lemma_pow_next(x + y, m);
        let s = power_sum(x, y, m, n);
        assert(power_sum_term(x, y, m, n) == 0) by (nonlinear_arith)
            requires
                power_sum_term(x, y, m, n) == 0 * pow(x, (m - n) as nat) * pow(y, n),
        ;
        assert(power_sum(x, y, m, n + 1) == s + power_sum_term(x, y, m, n));
        assert(x * s + y * s == (x + y) * s) by (nonlinear_arith);
    }
}

/// The coefficients of row `n` add up to `2^n`.
pub proof fn lemma_row_sum(n: nat)
    ensures
        row_sum(n, n + 1) == pow(2, n),
{
    lemma_row_sum_is_power_sum(n, n + 1);
    lemma_binomial_theorem(1, 1, n);
}

proof fn lemma_row_sum_is_power_sum(n: nat, count: nat)
    ensures
        row_sum(n, count) == power_sum(1, 1, n, count),
    decreases count,
{
    if count > 0 {
        let i = (count - 1) as nat;
        lemma_row_sum_is_power_sum(n, i);
        lemma1_pow((n - i) as nat);
        lemma1_pow(i);
        assert(binomial(n, i) * 1 * 1 == binomial(n, i));
    }
}

/// Term `i` of the expansion has, at `a` and `b`, the value of term `i` of
/// the binomial sum for the two addends of the base.
proof fn lemma_expansion_term_value(bv: BinomialView, a: int, b: int, i: nat)
    requires
        i <= bv.n,
    ensures
        term_value(expansion_term(bv, i), a, b) == power_sum_term(
            bv.a_coeff * pow(a, bv.a_exp),
            bv.b_coeff * pow(b, bv.b_exp),
            bv.n,
            i,
        ),
{
    let k = (bv.n - i) as nat;
    let c = binomial(bv.n, i) as int;
    let in_a = pow(a, bv.a_exp);
    let in_b = pow(b, bv.b_exp);
    lemma_pow_multiplies(a, bv.a_exp, k);
    lemma_pow_multiplies(b, bv.b_exp, i);
    lemma_pow_distributes(bv.a_coeff, in_a, k);
    lemma_pow_distributes(bv.b_coeff, in_b, i);
    let p = pow(bv.a_coeff, k);
    let q = pow(bv.b_coeff, i);
    let u = pow(a, bv.a_exp * k);
    let v = pow(b, bv.b_exp * i);
    assert(pow(bv.a_coeff * in_a, k) == p * u);
    assert(pow(bv.b_coeff * in_b, i) == q * v);
    assert((c * p * q) * u * v == c * (p * u) * (q * v)) by (nonlinear_arith);
}

proof fn lemma_expansion_prefix(bv: BinomialView, a: int, b: int, count: nat)
    requires
        count <= bv.n + 1,
    ensures
        evaluation(expansion(bv).take(count as int), a, b) == power_sum(
            bv.a_coeff * pow(a, bv.a_exp),
            bv.b_coeff * pow(b, bv.b_exp),
            bv.n,
            count,
        ),
    decreases count,
{
    let prefix = expansion(bv).take(count as int);
    if count > 0 {
        let i = (count - 1) as nat;
        lemma_expansion_prefix(bv, a, b, i);
        lemma_expansion_term_value(bv, a, b, i);
        assert(prefix.drop_last() =~= expansion(bv).take(i as int));
        assert(prefix.last() == expansion_term(bv, i));
    }
}

/// The expansion of a binomial has, at any `a` and `b`, the value of the
/// binomial itself: `(a_coeff · a^a_exp + b_coeff · b^b_exp)^n`.
pub proof fn lemma_expansion_evaluates_to_power(bv: BinomialView, a: int, b: int)
    ensures
        evaluation(expansion(bv), a, b) == pow(base_value(bv, a, b), bv.n),
{
    lemma_expansion_prefix(bv, a, b, bv.n + 1);
    assert(expansion(bv).take((bv.n + 1) as int) =~= expansion(bv));
    lemma_binomial_theorem(bv.a_coeff * pow(a, bv.a_exp), bv.b_coeff * pow(b, bv.b_exp), bv.n);
}

/// Replacing `a` by `x` and then evaluating at `b = y` gives the value of
/// the terms at `a = x` and `b = y`, whatever is then passed for `a`.
pub proof fn lemma_a_substitution(terms: Seq<TermView>, x: int, y: int, unused: int)
    ensures
        evaluation(terms_at_a(terms, x), unused, y) == evaluation(terms, x, y),
    decreases terms.len(),
{
    if terms.len() > 0 {
        lemma_a_substitution(terms.drop_last(), x, y, unused);
        assert(terms_at_a(terms, x).drop_last() =~= terms_at_a(terms.drop_last(), x));
        assert(terms_at_a(terms, x).last() == term_at_a(terms.last(), x));
        lemma_pow0(unused);
        let t = terms.last();
        assert((t.coeff * pow(x, t.a_exp)) * 1 * pow(y, t.b_exp) == t.coeff * pow(x, t.a_exp)
            * pow(y, t.b_exp)) by (nonlinear_arith);
    }
}

/// Replacing `b` by `y` and then evaluating at `a = x` gives the value of
/// the terms at `a = x` and `b = y`, whatever is then passed for `b`.
pub proof fn lemma_b_substitution(terms: Seq<TermView>, x: int, y: int, unused: int)
    ensures
        evaluation(terms_at_b(terms, y), x, unused) == evaluation(terms, x, y),
    decreases terms.len(),
{
    if terms.len() > 0 {
        lemma_b_substitution(terms.drop_last(), x, y, unused);
        assert(terms_at_b(terms, y).drop_last() =~= terms_at_b(terms.drop_last(), y));
        assert(terms_at_b(terms, y).last() == term_at_b(terms.last(), y));
        lemma_pow0(unused);
        let t = terms.last();
        assert((t.coeff * pow(y, t.b_exp)) * pow(x, t.a_exp) * 1 == t.coeff * pow(x, t.a_exp)
            * pow(y, t.b_exp)) by (nonlinear_arith);
    }
}

} // verus!

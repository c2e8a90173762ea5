//! The expansion engine and the evaluator: a binomial, the terms of its
//! expansion, and expressions made of such terms.

use crate::combinatorics::{binomial, binomial_coefficient};
use crate::integer::{int_of, integer_from_u64, power_of, product_of, sum_of};
use num_bigint::BigInt;
use vstd::arithmetic::power::pow;
use vstd::prelude::*;

verus! {

/// What a [`Term`] stands for: the monomial `coeff · a^a_exp · b^b_exp`.
pub struct TermView {
    pub coeff: int,
    pub a_exp: nat,
    pub b_exp: nat,
}

/// What a [`Binomial`] stands for: `(a_coeff · a^a_exp + b_coeff · b^b_exp)^n`.
pub struct BinomialView {
    pub a_coeff: int,
    pub a_exp: nat,
    pub b_coeff: int,
    pub b_exp: nat,
    pub n: nat,
}

/// The value of a term at `a` and `b`.
pub open spec fn term_value(t: TermView, a: int, b: int) -> int {
    t.coeff * pow(a, t.a_exp) * pow(b, t.b_exp)
}

/// The value of a sequence of terms at `a` and `b`: the sum of the values
/// of its terms, taken in order from zero.
pub open spec fn evaluation(terms: Seq<TermView>, a: int, b: int) -> int
    decreases terms.len(),
{
    if terms.len() == 0 {
        0
    } else {
        evaluation(terms.drop_last(), a, b) + term_value(terms.last(), a, b)
    }
}

/// A term with `a` replaced by a value: the value's power moves into the
/// coefficient and the exponent of `a` becomes 0.
pub open spec fn term_at_a(t: TermView, a: int) -> TermView {
    TermView { coeff: t.coeff * pow(a, t.a_exp), a_exp: 0, b_exp: t.b_exp }
}

/// A term with `b` replaced by a value.
pub open spec fn term_at_b(t: TermView, b: int) -> TermView {
    TermView { coeff: t.coeff * pow(b, t.b_exp), a_exp: t.a_exp, b_exp: 0 }
}

/// A sequence of terms with `a` replaced by a value in each of them.
pub open spec fn terms_at_a(terms: Seq<TermView>, a: int) -> Seq<TermView> {
    Seq::new(terms.len(), |i: int| term_at_a(terms[i], a))
}

/// A sequence of terms with `b` replaced by a value in each of them.
pub open spec fn terms_at_b(terms: Seq<TermView>, b: int) -> Seq<TermView> {
    Seq::new(terms.len(), |i: int| term_at_b(terms[i], b))
}

/// Term `i` of the expansion of a binomial, for `i` from 0 to `n`.
pub open spec fn expansion_term(b: BinomialView, i: nat) -> TermView {
    TermView {
        coeff: binomial(b.n, i) * pow(b.a_coeff, (b.n - i) as nat) * pow(b.b_coeff, i),
        a_exp: b.a_exp * ((b.n - i) as nat),
        b_exp: b.b_exp * i,
    }
}

/// The expansion of a binomial: its `n + 1` terms in the order of `i`.
pub open spec fn expansion(b: BinomialView) -> Seq<TermView> {
    Seq::new(b.n + 1, |i: int| expansion_term(b, i as nat))
}

/// One addend of an expanded polynomial: an exact coefficient and the
/// exponents of the two symbols.
pub struct Term {
    pub coeff: BigInt,
    pub a_exp: u64,
    pub b_exp: u64,
}

impl View for Term {
    type V = TermView;

    open spec fn view(&self) -> TermView {
        TermView {
            coeff: int_of(self.coeff),
            a_exp: self.a_exp as nat,
            b_exp: self.b_exp as nat,
        }
    }
}

impl Term {
    pub fn from(coeff: BigInt, a_exp: u64, b_exp: u64) -> (t: Term)
        ensures
            t.coeff == coeff,
            t.a_exp == a_exp,
            t.b_exp == b_exp,
    {
        Term { coeff, a_exp, b_exp }
    }
}

/// An ordered sequence of terms. Terms are never merged.
pub struct Expression {
    pub expr: Vec<Term>,
}

impl View for Expression {
    type V = Seq<TermView>;

    open spec fn view(&self) -> Seq<TermView> {
        Seq::new(self.expr@.len(), |i: int| self.expr@[i]@)
    }
}

impl Expression {
    /// The value of the expression at `a` and `b`.
    pub fn eval(&self, a: BigInt, b: BigInt) -> (value: BigInt)
        ensures
            int_of(value) == evaluation(self@, int_of(a), int_of(b)),
    {
        let mut total = integer_from_u64(0);
        let mut i: usize = 0;
        while i < self.expr.len()
            invariant
                i <= self.expr@.len(),
                int_of(total) == evaluation(self@.take(i as int), int_of(a), int_of(b)),
            decreases self.expr@.len() - i,
        {
            let t = &self.expr[i];
            let in_a = product_of(&t.coeff, &power_of(&a, t.a_exp));
            let addend = product_of(&in_a, &power_of(&b, t.b_exp));
            total = sum_of(&total, &addend);
            proof {
                let next = self@.take(i + 1);
                assert(next.drop_last() =~= self@.take(i as int));
                assert(next.last() == t@);
            }
            i = i + 1;
        }
        proof {
            assert(self@.take(i as int) =~= self@);
        }
        total
    }

    /// The expression with `a` replaced by a value; `b` stays symbolic.
    pub fn a_eval(&self, a: BigInt) -> (e: Expression)
        ensures
            e@.len() == self@.len(),
            e@ == terms_at_a(self@, int_of(a)),
    {
        let mut terms: Vec<Term> = Vec::new();
        let mut i: usize = 0;
        while i < self.expr.len()
            invariant
                i <= self.expr@.len(),
                terms@.len() == i,
                forall|j: int| 0 <= j < i ==> (#[trigger] terms@[j])@ == term_at_a(self@[j], int_of(a)),
            decreases self.expr@.len() - i,
        {
            let t = &self.expr[i];
            let coeff = product_of(&t.coeff, &power_of(&a, t.a_exp));
            terms.push(Term::from(coeff, 0, t.b_exp));
            i = i + 1;
        }
        let e = Expression { expr: terms };
        proof {
            assert(e@ =~= terms_at_a(self@, int_of(a)));
        }
        e
    }

    /// The expression with `b` replaced by a value; `a` stays symbolic.
    pub fn b_eval(&self, b: BigInt) -> (e: Expression)
        ensures
            e@.len() == self@.len(),
            e@ == terms_at_b(self@, int_of(b)),
    {
        let mut terms: Vec<Term> = Vec::new();
        let mut i: usize = 0;
        while i < self.expr.len()
            invariant
                i <= self.expr@.len(),
                terms@.len() == i,
                forall|j: int| 0 <= j < i ==> (#[trigger] terms@[j])@ == term_at_b(self@[j], int_of(b)),
            decreases self.expr@.len() - i,
        {
            let t = &self.expr[i];
            let coeff = product_of(&t.coeff, &power_of(&b, t.b_exp));
            terms.push(Term::from(coeff, t.a_exp, 0));
            i = i + 1;
        }
        let e = Expression { expr: terms };
        proof {
            assert(e@ =~= terms_at_b(self@, int_of(b)));
        }
        e
    }
}

/// The binomial `(a_coeff · a^a_exp + b_coeff · b^b_exp)^n`.
pub struct Binomial {
    pub a_coeff: BigInt,
    pub a_exp: u32,
    pub b_coeff: BigInt,
    pub b_exp: u32,
    pub n: u32,
}

impl View for Binomial {
    type V = BinomialView;

    open spec fn view(&self) -> BinomialView {
        BinomialView {
            a_coeff: int_of(self.a_coeff),
            a_exp: self.a_exp as nat,
            b_coeff: int_of(self.b_coeff),
            b_exp: self.b_exp as nat,
            n: self.n as nat,
        }
    }
}

impl Binomial {
    pub fn from(a_coeff: BigInt, a_exp: u32, b_coeff: BigInt, b_exp: u32, n: u32) -> (b: Binomial)
        ensures
            b.a_coeff == a_coeff,
            b.a_exp == a_exp,
            b.b_coeff == b_coeff,
            b.b_exp == b_exp,
            b.n == n,
    {
        Binomial { a_coeff, a_exp, b_coeff, b_exp, n }
    }

    /// Term `i` of the expansion. Its exponents are products of two 32-bit
    /// numbers, held in 64 bits, so they cannot overflow.
    fn term(&self, i: u32) -> (t: Term)
        requires
            i <= self.n,
        ensures
            t@ == expansion_term(self@, i as nat),
    {
        let left: u32 = self.n - i;
        let in_a = power_of(&self.a_coeff, left as u64);
        let in_b = power_of(&self.b_coeff, i as u64);
        let count = binomial_coefficient(self.n, i).unwrap();
        let coeff = product_of(&product_of(&count, &in_a), &in_b);
        assert(self.a_exp * left <= 0xffff_ffff * 0xffff_ffff) by (nonlinear_arith)
            requires
                self.a_exp <= 0xffff_ffff,
                left <= 0xffff_ffff,
        ;
        assert(self.b_exp * i <= 0xffff_ffff * 0xffff_ffff) by (nonlinear_arith)
            requires
                self.b_exp <= 0xffff_ffff,
                i <= 0xffff_ffff,
        ;
        Term::from(coeff, self.a_exp as u64 * left as u64, self.b_exp as u64 * i as u64)
    }

    /// The expansion by the binomial theorem: `n + 1` terms, term `i` being
    /// `C(n, i) · a_coeff^(n−i) · b_coeff^i · a^(a_exp·(n−i)) · b^(b_exp·i)`.
    pub fn expand(&self) -> (e: Expression)
        ensures
            e@.len() == self.n + 1,
            e@ == expansion(self@),
    {
        let mut terms: Vec<Term> = Vec::new();
        let mut i: u32 = 0;
        while i < self.n
            invariant
                i <= self.n,
                terms@.len() == i,
                forall|j: int| 0 <= j < i ==> (#[trigger] terms@[j])@ == expansion_term(self@, j as nat),
            decreases self.n - i,
        {
            terms.push(self.term(i));
            i = i + 1;
        }
        terms.push(self.term(self.n));
        let e = Expression { expr: terms };
        proof {
            assert(e@ =~= expansion(self@));
        }
        e
    }
}

} // verus!

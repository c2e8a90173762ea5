//! Binomials, terms and expressions as algebraic text.

use crate::expansion::{Binomial, BinomialView, Expression, Term, TermView};
use crate::text::{
    append, decimal, decimal_digits, decimal_of_integer, decimal_of_u64, signed_decimal,
    signed_decimal_of_integer,
};
use vstd::prelude::*;

verus! {

/// The text of a term: `[coeff(a^a_exp)(b^b_exp)]`.
pub open spec fn term_text(t: TermView) -> Seq<char> {
    "["@ + decimal(t.coeff) + "(a^"@ + decimal_digits(t.a_exp) + ")(b^"@ + decimal_digits(
        t.b_exp,
    ) + ")]"@
}

/// The text of a sequence of terms: the texts of the terms in order, with
/// ` + ` between two of them.
pub open spec fn terms_text(terms: Seq<TermView>) -> Seq<char>
    decreases terms.len(),
{
    if terms.len() == 0 {
        Seq::empty()
    } else if terms.len() == 1 {
        term_text(terms[0])
    } else {
        terms_text(terms.drop_last()) + " + "@ + term_text(terms.last())
    }
}

/// The text of a binomial: `(a_coeffa^a_exp+b_coeffb^b_exp)^n`, the sign of
/// the second coefficient always written.
pub open spec fn binomial_text(b: BinomialView) -> Seq<char> {
    "("@ + decimal(b.a_coeff) + "a^"@ + decimal_digits(b.a_exp) + signed_decimal(b.b_coeff)
        + "b^"@ + decimal_digits(b.b_exp) + ")^"@ + decimal_digits(b.n)
}

impl Term {
    /// The term as text. The text is a function of what the term stands
    /// for, so rendering twice gives the same text.
    pub fn render(&self) -> (text: String)
        ensures
            text@ == term_text(self@),
    {
        let mut text = String::new();
        append(&mut text, "[");
        append(&mut text, decimal_of_integer(&self.coeff).as_str());
        append(&mut text, "(a^");
        append(&mut text, decimal_of_u64(self.a_exp).as_str());
        append(&mut text, ")(b^");
        append(&mut text, decimal_of_u64(self.b_exp).as_str());
        append(&mut text, ")]");
        text
    }
}

impl Expression {
    /// The expression as text: its terms in order, joined by ` + `.
    pub fn render(&self) -> (text: String)
        ensures
            text@ == terms_text(self@),
    {
        let mut text = String::new();
        let mut i: usize = 0;
        while i < self.expr.len()
            invariant
                i <= self.expr@.len(),
                text@ == terms_text(self@.take(i as int)),
            decreases self.expr@.len() - i,
        {
            if i > 0 {
                append(&mut text, " + ");
            }
            append(&mut text, self.expr[i].render().as_str());
            proof {
                let next = self@.take(i + 1);
                assert(next.drop_last() =~= self@.take(i as int));
                assert(next.last() == self.expr@[i as int]@);
                assert(next[0] == next.last() || i > 0);
            }
            i = i + 1;
        }
        proof {
            assert(self@.take(i as int) =~= self@);
        }
        text
    }
}

impl Binomial {
    /// The binomial as text.
    pub fn render(&self) -> (text: String)
        ensures
            text@ == binomial_text(self@),
    {
        let mut text = String::new();
        append(&mut text, "(");
        append(&mut text, decimal_of_integer(&self.a_coeff).as_str());
        append(&mut text, "a^");
        append(&mut text, decimal_of_u64(self.a_exp as u64).as_str());
        append(&mut text, signed_decimal_of_integer(&self.b_coeff).as_str());
        append(&mut text, "b^");
        append(&mut text, decimal_of_u64(self.b_exp as u64).as_str());
        append(&mut text, ")^");
        append(&mut text, decimal_of_u64(self.n as u64).as_str());
        text
    }
}

} // verus!

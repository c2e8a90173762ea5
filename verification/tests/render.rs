use binomial_expansion::expansion::{Binomial, Expression, Term};
use num_bigint::BigInt;

fn big(n: i64) -> BigInt {
    BigInt::from(n)
}

#[test]
fn term_renders_in_brackets() {
    assert_eq!(Term::from(big(1), 3, 0).render(), "[1(a^3)(b^0)]");
    assert_eq!(Term::from(big(-252), 5, 5).render(), "[-252(a^5)(b^5)]");
    assert_eq!(Term::from(big(0), 0, 12).render(), "[0(a^0)(b^12)]");
}

#[test]
fn term_renders_numbers_beyond_machine_words() {
    let coeff = "-100891344545564193334812497256".parse::<BigInt>().unwrap();
    let t = Term::from(coeff, u64::MAX, 4294967296);
    assert_eq!(
        t.render(),
        "[-100891344545564193334812497256(a^18446744073709551615)(b^4294967296)]"
    );
}

#[test]
fn expression_joins_its_terms_with_plus() {
    let expansion = Binomial::from(big(1), 1, big(1), 1, 2).expand();
    assert_eq!(expansion.render(), "[1(a^2)(b^0)] + [2(a^1)(b^1)] + [1(a^0)(b^2)]");
    let negative = Binomial::from(big(1), 1, big(-1), 1, 1).expand();
    assert_eq!(negative.render(), "[1(a^1)(b^0)] + [-1(a^0)(b^1)]");
}

#[test]
fn expression_of_one_term_has_no_separator() {
    let single = Binomial::from(big(5), 1, big(6), 1, 0).expand();
    assert_eq!(single.render(), "[1(a^0)(b^0)]");
}

#[test]
fn empty_expression_renders_as_nothing() {
    assert_eq!(Expression { expr: Vec::new() }.render(), "");
}

#[test]
fn binomial_writes_the_sign_of_its_second_coefficient() {
    assert_eq!(Binomial::from(big(1), 1, big(1), 1, 3).render(), "(1a^1+1b^1)^3");
    assert_eq!(Binomial::from(big(-12), 4, big(23), 7, 15).render(), "(-12a^4+23b^7)^15");
    assert_eq!(Binomial::from(big(1), 1, big(-1), 1, 10).render(), "(1a^1-1b^1)^10");
    assert_eq!(Binomial::from(big(0), 0, big(0), 0, 0).render(), "(0a^0+0b^0)^0");
}

#[test]
fn rendering_twice_gives_the_same_text() {
    let b = Binomial::from(big(-12), 4, big(23), 7, 15);
    assert_eq!(b.render(), b.render());
    let expansion = b.expand();
    assert_eq!(expansion.render(), expansion.render());
    assert_eq!(expansion.expr[3].render(), expansion.expr[3].render());
}

#[test]
fn partly_substituted_expression_renders_zero_exponents() {
    let reduced = Binomial::from(big(1), 1, big(1), 1, 2).expand().a_eval(big(3));
    assert_eq!(reduced.render(), "[9(a^0)(b^0)] + [6(a^0)(b^1)] + [1(a^0)(b^2)]");
}

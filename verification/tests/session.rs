use binomial_expansion::expansion::Binomial;
use binomial_expansion::session::{read, Expectation, Reading, Session, Step};
use num_bigint::BigInt;

const WARNING: &str = "WARNING: Null values can cause undefined behavior";
const QUESTION: &str = "\nevaluate expression? Y/n";

fn big(n: i64) -> BigInt {
    BigInt::from(n)
}

/// Feeds the lines to a new dialogue and gives back every text shown after
/// the first question, with the session reached.
fn run(lines: &[&str]) -> (Session, Vec<String>) {
    let Step { next, output: _ } = Session::start();
    let mut session = next;
    let mut shown = Vec::new();
    for line in lines {
        let step = session.advance(line);
        session = step.next;
        shown.extend(step.output);
    }
    (session, shown)
}

fn at_choice(a_coeff: i64, a_exp: u32, b_coeff: i64, b_exp: u32, n: u32) -> Session {
    Session::Choice { binomial: Binomial::from(big(a_coeff), a_exp, big(b_coeff), b_exp, n) }
}

#[test]
fn dialogue_starts_with_the_first_question() {
    let step = Session::start();
    assert!(matches!(step.next, Session::ACoeff));
    assert_eq!(step.output, vec!["(\u{3b1}a^\u{3b2}+\u{3b3}b^\u{3b4})^n\nlet \u{3b1} ="]);
}

#[test]
fn questions_show_the_values_given_so_far() {
    let (session, shown) = run(&["-12", "4", "23", "7", "15"]);
    assert_eq!(
        shown,
        vec![
            "\n(-12a^\u{3b2}+\u{3b3}b^\u{3b4})^n\nlet \u{3b2} =",
            "\n(-12a^4+\u{3b3}b^\u{3b4})^n\nlet \u{3b3} =",
            "\n(-12a^4+23b^\u{3b4})^n\nlet \u{3b4} =",
            "\n(-12a^4+23b^7)^n\nlet n =",
            "\n(-12a^4+23b^7)^15",
            QUESTION,
        ]
    );
    match session {
        Session::Choice { binomial } => {
            assert_eq!(binomial.a_coeff, big(-12));
            assert_eq!(binomial.a_exp, 4);
            assert_eq!(binomial.b_coeff, big(23));
            assert_eq!(binomial.b_exp, 7);
            assert_eq!(binomial.n, 15);
        }
        _ => panic!("the dialogue should wait for the answer"),
    }
}

#[test]
fn negative_second_coefficient_is_shown_with_its_sign() {
    let (_, shown) = run(&["1", "1", "-1"]);
    assert_eq!(shown[2], "\n(1a^1-1b^\u{3b4})^n\nlet \u{3b4} =");
}

#[test]
fn answer_yes_leads_to_the_value() {
    let (session, shown) = run(&["1", "1", "1", "1", "3", "y", "2", "12"]);
    assert!(session.is_done());
    assert_eq!(shown[shown.len() - 3..], ["\nlet a =", "\nlet b =", "\n2744"]);
}

#[test]
fn answer_no_leads_to_the_expansion() {
    let (session, shown) = run(&["1", "1", "1", "1", "2", "n"]);
    assert!(session.is_done());
    assert_eq!(shown.last().unwrap(), "\n[1(a^2)(b^0)] + [2(a^1)(b^1)] + [1(a^0)(b^2)]");
}

#[test]
fn answers_are_read_in_any_case_and_trimmed() {
    for answer in ["yes", "YES", "Yes", "y", "Y", "  y  ", "yEs\n", "\tY\r\n"] {
        let step = at_choice(1, 1, 1, 1, 1).advance(answer);
        assert!(matches!(step.next, Session::ValueOfA { .. }));
        assert_eq!(step.output, vec!["\nlet a ="]);
    }
    for answer in ["no", "NO", "No", "n", "N", " n ", "nO\n"] {
        let step = at_choice(1, 1, 1, 1, 1).advance(answer);
        assert!(step.next.is_done());
        assert_eq!(step.output, vec!["\n[1(a^1)(b^0)] + [1(a^0)(b^1)]"]);
    }
}

#[test]
fn unclear_answer_has_the_question_asked_again() {
    for answer in ["", "maybe", "ye", "yess", "y n", "0", "nope"] {
        let step = at_choice(2, 3, 4, 5, 6).advance(answer);
        match step.next {
            Session::Choice { binomial } => {
                assert_eq!(binomial.a_coeff, big(2));
                assert_eq!(binomial.n, 6);
            }
            _ => panic!("the dialogue should still wait for the answer"),
        }
        assert_eq!(step.output, vec![QUESTION]);
    }
}

#[test]
fn text_that_is_no_integer_is_refused() {
    for line in ["", "abc", "1.5", "12x", "--4", "1 2", "0x10"] {
        let step = Session::ACoeff.advance(line);
        assert!(matches!(step.next, Session::ACoeff));
        assert_eq!(step.output, vec!["Must be BigInt"]);
    }
    let step = Session::BCoeff { a_coeff: big(3), a_exp: 2 }.advance("three");
    match step.next {
        Session::BCoeff { a_coeff, a_exp } => {
            assert_eq!(a_coeff, big(3));
            assert_eq!(a_exp, 2);
        }
        _ => panic!("the dialogue should still wait for the coefficient"),
    }
    assert_eq!(step.output, vec!["Must be BigInt"]);
}

#[test]
fn text_that_is_no_exponent_is_refused() {
    for line in ["", "-1", "4294967296", "two", "3.0"] {
        let step = Session::AExp { a_coeff: big(5) }.advance(line);
        match step.next {
            Session::AExp { a_coeff } => assert_eq!(a_coeff, big(5)),
            _ => panic!("the dialogue should still wait for the exponent"),
        }
        assert_eq!(step.output, vec!["Must be u32"]);
    }
    let step = Session::BExp { a_coeff: big(5), a_exp: 1, b_coeff: big(6) }.advance("x");
    assert!(matches!(step.next, Session::BExp { .. }));
    assert_eq!(step.output, vec!["Must be u32"]);
    let step =
        Session::Power { a_coeff: big(5), a_exp: 1, b_coeff: big(6), b_exp: 2 }.advance("-3");
    assert!(matches!(step.next, Session::Power { .. }));
    assert_eq!(step.output, vec!["Must be u32"]);
}

#[test]
fn values_are_refused_while_they_do_not_parse() {
    let binomial = Binomial::from(big(1), 1, big(1), 1, 3);
    let step = Session::ValueOfA { binomial }.advance("two");
    assert!(matches!(step.next, Session::ValueOfA { .. }));
    assert_eq!(step.output, vec!["Must be BigInt"]);
    let step = step.next.advance("2");
    assert_eq!(step.output, vec!["\nlet b ="]);
    let step = step.next.advance("twelve");
    match &step.next {
        Session::ValueOfB { binomial, a } => {
            assert_eq!(binomial.n, 3);
            assert_eq!(*a, big(2));
        }
        _ => panic!("the dialogue should still wait for the value of b"),
    }
    assert_eq!(step.output, vec!["Must be BigInt"]);
    let step = step.next.advance("12");
    assert!(step.next.is_done());
    assert_eq!(step.output, vec!["\n2744"]);
}

#[test]
fn lines_are_trimmed_before_they_are_read() {
    let step = Session::ACoeff.advance("  -42 \r\n");
    match step.next {
        Session::AExp { a_coeff } => assert_eq!(a_coeff, big(-42)),
        _ => panic!("the coefficient should be taken"),
    }
    let step = Session::AExp { a_coeff: big(1) }.advance("\t7\n");
    match step.next {
        Session::BCoeff { a_exp, .. } => assert_eq!(a_exp, 7),
        _ => panic!("the exponent should be taken"),
    }
}

#[test]
fn numbers_beyond_machine_words_are_taken() {
    let step = Session::ACoeff.advance("-340282366920938463463374607431768211456");
    match step.next {
        Session::AExp { a_coeff } => assert_eq!(a_coeff, -BigInt::from(2).pow(128)),
        _ => panic!("the coefficient should be taken"),
    }
    let step = Session::AExp { a_coeff: big(1) }.advance("4294967295");
    match step.next {
        Session::BCoeff { a_exp, .. } => assert_eq!(a_exp, u32::MAX),
        _ => panic!("the exponent should be taken"),
    }
}

#[test]
fn zero_is_taken_with_an_advisory() {
    let step = Session::ACoeff.advance("0");
    assert!(matches!(step.next, Session::AExp { .. }));
    assert_eq!(
        step.output,
        vec![WARNING, "\n(0a^\u{3b2}+\u{3b3}b^\u{3b4})^n\nlet \u{3b2} ="]
    );
    let step = step.next.advance("0");
    assert_eq!(step.output, vec![WARNING, "\n(0a^0+\u{3b3}b^\u{3b4})^n\nlet \u{3b3} ="]);
    let step = step.next.advance("-0");
    assert_eq!(step.output, vec![WARNING, "\n(0a^0+0b^\u{3b4})^n\nlet \u{3b4} ="]);
    let step = step.next.advance("0");
    assert_eq!(step.output, vec![WARNING, "\n(0a^0+0b^0)^n\nlet n ="]);
    let step = step.next.advance("0");
    assert_eq!(step.output, vec![WARNING, "\n(0a^0+0b^0)^0", QUESTION]);
    let step = step.next.advance("y");
    assert_eq!(step.output, vec!["\nlet a ="]);
    let step = step.next.advance("0");
    assert_eq!(step.output, vec![WARNING, "\nlet b ="]);
    let step = step.next.advance("0");
    assert_eq!(step.output, vec![WARNING, "\n1"]);
    assert!(step.next.is_done());
}

#[test]
fn nonzero_values_come_without_an_advisory() {
    let (_, shown) = run(&["1", "1", "-1", "1", "10", "yes", "2", "3"]);
    assert!(shown.iter().all(|text| text != WARNING));
    assert_eq!(shown.last().unwrap(), "\n1");
}

#[test]
fn finished_dialogue_stays_finished() {
    let step = Session::Done.advance("y");
    assert!(step.next.is_done());
    assert!(step.output.is_empty());
    assert!(!Session::ACoeff.is_done());
    assert_eq!(Session::Done.prompt(), "");
}

#[test]
fn large_case_runs_through_the_dialogue() {
    let (session, shown) = run(&["-12", "4", "23", "7", "15", "Y", "14", "20"]);
    assert!(session.is_done());
    let expected = (big(-12) * big(14).pow(4) + big(23) * big(20).pow(7)).pow(15);
    assert_eq!(shown.last().unwrap(), &format!("\n{}", expected));
}

#[test]
fn each_session_expects_its_kind_of_text() {
    let binomial = || Binomial::from(big(1), 1, big(1), 1, 1);
    assert_eq!(Session::ACoeff.expects(), Expectation::Integer);
    assert_eq!(Session::AExp { a_coeff: big(1) }.expects(), Expectation::Exponent);
    assert_eq!(Session::BCoeff { a_coeff: big(1), a_exp: 1 }.expects(), Expectation::Integer);
    assert_eq!(
        Session::BExp { a_coeff: big(1), a_exp: 1, b_coeff: big(1) }.expects(),
        Expectation::Exponent
    );
    assert_eq!(
        Session::Power { a_coeff: big(1), a_exp: 1, b_coeff: big(1), b_exp: 1 }.expects(),
        Expectation::Exponent
    );
    assert_eq!(Session::Choice { binomial: binomial() }.expects(), Expectation::Answer);
    assert_eq!(Session::ValueOfA { binomial: binomial() }.expects(), Expectation::Integer);
    assert_eq!(
        Session::ValueOfB { binomial: binomial(), a: big(1) }.expects(),
        Expectation::Integer
    );
    assert_eq!(Session::Done.expects(), Expectation::Nothing);
}

#[test]
fn lines_are_read_as_what_is_expected() {
    assert!(matches!(read(Expectation::Integer, " -17\n"), Reading::Integer(v) if v == big(-17)));
    assert!(matches!(read(Expectation::Integer, "+17"), Reading::Integer(v) if v == big(17)));
    assert!(matches!(read(Expectation::Integer, "seventeen"), Reading::Unreadable));
    assert!(matches!(read(Expectation::Integer, ""), Reading::Unreadable));
    assert!(matches!(read(Expectation::Exponent, " 17 "), Reading::Exponent(17)));
    assert!(matches!(read(Expectation::Exponent, "-17"), Reading::Unreadable));
    assert!(matches!(read(Expectation::Exponent, "99999999999"), Reading::Unreadable));
    assert!(matches!(read(Expectation::Answer, "  YeS \n"), Reading::Answer(t) if t == "yes"));
    assert!(matches!(read(Expectation::Answer, "17"), Reading::Answer(t) if t == "17"));
    assert!(matches!(read(Expectation::Answer, " \t"), Reading::Answer(t) if t.is_empty()));
    assert!(matches!(read(Expectation::Nothing, "17"), Reading::Unreadable));
}

#[test]
fn reading_of_another_kind_is_not_taken() {
    let step = Session::ACoeff.take(Reading::Exponent(3));
    assert!(matches!(step.next, Session::ACoeff));
    assert_eq!(step.output, vec!["Must be BigInt"]);
    let step = Session::ACoeff.take(Reading::Answer("3".to_string()));
    assert_eq!(step.output, vec!["Must be BigInt"]);
    let step = Session::AExp { a_coeff: big(1) }.take(Reading::Integer(big(3)));
    assert!(matches!(step.next, Session::AExp { .. }));
    assert_eq!(step.output, vec!["Must be u32"]);
    let step = at_choice(1, 1, 1, 1, 1).take(Reading::Integer(big(3)));
    assert!(matches!(step.next, Session::Choice { .. }));
    assert_eq!(step.output, vec![QUESTION]);
    let step = at_choice(1, 1, 1, 1, 1).take(Reading::Unreadable);
    assert_eq!(step.output, vec![QUESTION]);
    let step = Session::Done.take(Reading::Integer(big(3)));
    assert!(step.next.is_done());
    assert!(step.output.is_empty());
}

#[test]
fn answers_are_taken_as_they_were_read() {
    let step = at_choice(1, 1, 1, 1, 1).take(Reading::Answer("yes".to_string()));
    assert!(matches!(step.next, Session::ValueOfA { .. }));
    let step = at_choice(1, 1, 1, 1, 1).take(Reading::Answer("n".to_string()));
    assert!(step.next.is_done());
    let step = at_choice(1, 1, 1, 1, 1).take(Reading::Answer("YES".to_string()));
    assert!(matches!(step.next, Session::Choice { .. }));
    assert_eq!(step.output, vec![QUESTION]);
}

#[test]
fn readings_lead_through_the_dialogue() {
    let step = Session::ACoeff.take(Reading::Integer(big(1)));
    let step = step.next.take(Reading::Exponent(1));
    let step = step.next.take(Reading::Integer(big(-1)));
    let step = step.next.take(Reading::Exponent(1));
    let step = step.next.take(Reading::Exponent(10));
    assert_eq!(step.output, vec!["\n(1a^1-1b^1)^10", QUESTION]);
    let step = step.next.take(Reading::Answer("y".to_string()));
    let step = step.next.take(Reading::Integer(big(2)));
    let step = step.next.take(Reading::Integer(big(3)));
    assert!(step.next.is_done());
    assert_eq!(step.output, vec!["\n1"]);
}

//! The dialogue that asks for a binomial and for what to do with it, as a
//! state machine: a session and a typed line give the next session and the
//! texts to show. Getting the line and showing the texts are left to the
//! caller.
//!
//! A step has two halves. [`read`] makes of a line what the session expects
//! of it, a number or an answer; what a given text is read as is decided by
//! `std` and `num_bigint`. [`Session::take`] decides on the reading alone;
//! [`Session::advance`] is one after the other.

use crate::expansion::{evaluation, expansion, Binomial, BinomialView};
use crate::input::{
    lowercase, parse_integer, parse_u32, parsed_integer, parsed_u32, to_lowercase, trim, trimmed,
};
use crate::integer::{int_of, is_zero};
use crate::render::{binomial_text, terms_text};
use crate::text::{
    append, decimal, decimal_digits, decimal_of_integer, decimal_of_u64, signed_decimal,
    signed_decimal_of_integer,
};
use num_bigint::BigInt;
use vstd::prelude::*;

verus! {

/// Where a dialogue stands: which value it waits for, holding the values
/// that were given before.
pub enum Session {
    /// Waiting for the coefficient of `a`.
    ACoeff,
    /// Waiting for the exponent of `a`.
    AExp { a_coeff: BigInt },
    /// Waiting for the coefficient of `b`.
    BCoeff { a_coeff: BigInt, a_exp: u32 },
    /// Waiting for the exponent of `b`.
    BExp { a_coeff: BigInt, a_exp: u32, b_coeff: BigInt },
    /// Waiting for the power of the binomial.
    Power { a_coeff: BigInt, a_exp: u32, b_coeff: BigInt, b_exp: u32 },
    /// Waiting for the answer to whether the expansion is to be evaluated.
    Choice { binomial: Binomial },
    /// Waiting for the value of `a`.
    ValueOfA { binomial: Binomial },
    /// Waiting for the value of `b`.
    ValueOfB { binomial: Binomial, a: BigInt },
    /// The result was shown; nothing is waited for.
    Done,
}

/// What a [`Session`] stands for.
pub enum SessionView {
    ACoeff,
    AExp { a_coeff: int },
    BCoeff { a_coeff: int, a_exp: nat },
    BExp { a_coeff: int, a_exp: nat, b_coeff: int },
    Power { a_coeff: int, a_exp: nat, b_coeff: int, b_exp: nat },
    Choice { binomial: BinomialView },
    ValueOfA { binomial: BinomialView },
    ValueOfB { binomial: BinomialView, a: int },
    Done,
}

impl View for Session {
    type V = SessionView;

    open spec fn view(&self) -> SessionView {
        match *self {
            Session::ACoeff => SessionView::ACoeff,
            Session::AExp { a_coeff } => SessionView::AExp { a_coeff: int_of(a_coeff) },
            Session::BCoeff { a_coeff, a_exp } => SessionView::BCoeff {
                a_coeff: int_of(a_coeff),
                a_exp: a_exp as nat,
            },
            Session::BExp { a_coeff, a_exp, b_coeff } => SessionView::BExp {
                a_coeff: int_of(a_coeff),
                a_exp: a_exp as nat,
                b_coeff: int_of(b_coeff),
            },
            Session::Power { a_coeff, a_exp, b_coeff, b_exp } => SessionView::Power {
                a_coeff: int_of(a_coeff),
                a_exp: a_exp as nat,
                b_coeff: int_of(b_coeff),
                b_exp: b_exp as nat,
            },
            Session::Choice { binomial } => SessionView::Choice { binomial: binomial@ },
            Session::ValueOfA { binomial } => SessionView::ValueOfA { binomial: binomial@ },
            Session::ValueOfB { binomial, a } => SessionView::ValueOfB {
                binomial: binomial@,
                a: int_of(a),
            },
            Session::Done => SessionView::Done,
        }
    }
}

/// The kind of text that a session waits for.
#[derive(Debug, Clone, Copy, PartialEq, Eq, Structural)]
pub enum Expectation {
    /// An integer of any size.
    Integer,
    /// An exponent or a power: a number of 32 bits.
    Exponent,
    /// An answer to a question.
    Answer,
    /// No text at all.
    Nothing,
}

/// What a typed line was read as.
pub enum Reading {
    /// The integer written in the line.
    Integer(BigInt),
    /// The exponent written in the line.
    Exponent(u32),
    /// The answer in the line: its text, trimmed and in lower case.
    Answer(String),
    /// The line does not hold what was expected.
    Unreadable,
}

/// What a [`Reading`] stands for.
pub enum ReadingView {
    Integer(int),
    Exponent(nat),
    Answer(Seq<char>),
    Unreadable,
}

impl View for Reading {
    type V = ReadingView;

    open spec fn view(&self) -> ReadingView {
        match *self {
            Reading::Integer(v) => ReadingView::Integer(int_of(v)),
            Reading::Exponent(v) => ReadingView::Exponent(v as nat),
            Reading::Answer(text) => ReadingView::Answer(text@),
            Reading::Unreadable => ReadingView::Unreadable,
        }
    }
}

/// One move of a dialogue: the session that follows and the texts to show,
/// each on a line of its own, in order.
pub struct Step {
    pub next: Session,
    pub output: Vec<String>,
}

/// What a [`Step`] stands for.
pub struct StepView {
    pub next: SessionView,
    pub output: Seq<Seq<char>>,
}

/// The texts that a sequence of strings holds.
pub open spec fn texts(strings: Seq<String>) -> Seq<Seq<char>> {
    Seq::new(strings.len(), |i: int| strings[i]@)
}

impl View for Step {
    type V = StepView;

    open spec fn view(&self) -> StepView {
        StepView { next: self.next@, output: texts(self.output@) }
    }
}

/// The question that a session asks. The values that are still to come
/// stand as Greek letters in the binomial shown.
pub open spec fn prompt_text(s: SessionView) -> Seq<char> {
    match s {
        SessionView::ACoeff => "(\u{03B1}a^\u{03B2}+\u{03B3}b^\u{03B4})^n\nlet \u{03B1} ="@,
        SessionView::AExp { a_coeff } => "\n("@ + decimal(a_coeff)
            + "a^\u{03B2}+\u{03B3}b^\u{03B4})^n\nlet \u{03B2} ="@,
        SessionView::BCoeff { a_coeff, a_exp } => "\n("@ + decimal(a_coeff) + "a^"@
            + decimal_digits(a_exp) + "+\u{03B3}b^\u{03B4})^n\nlet \u{03B3} ="@,
        SessionView::BExp { a_coeff, a_exp, b_coeff } => "\n("@ + decimal(a_coeff) + "a^"@
            + decimal_digits(a_exp) + signed_decimal(b_coeff) + "b^\u{03B4})^n\nlet \u{03B4} ="@,
        SessionView::Power { a_coeff, a_exp, b_coeff, b_exp } => "\n("@ + decimal(a_coeff)
            + "a^"@ + decimal_digits(a_exp) + signed_decimal(b_coeff) + "b^"@ + decimal_digits(
            b_exp,
        ) + ")^n\nlet n ="@,
        SessionView::Choice { binomial } => "\nevaluate expression? Y/n"@,
        SessionView::ValueOfA { binomial } => "\nlet a ="@,
        SessionView::ValueOfB { binomial, a } => "\nlet b ="@,
        SessionView::Done => Seq::empty(),
    }
}

/// The advisory shown when a value that was given is zero.
pub open spec fn zero_notice(zero: bool) -> Seq<Seq<char>> {
    if zero {
        seq!["WARNING: Null values can cause undefined behavior"@]
    } else {
        Seq::empty()
    }
}

/// A value was taken: the advisory if it is zero, then the question of the
/// session that follows.
pub open spec fn accepted(zero: bool, next: SessionView) -> StepView {
    StepView { next, output: zero_notice(zero).push(prompt_text(next)) }
}

/// A line was not taken: the session stays and says what it expects.
pub open spec fn rejected(s: SessionView, message: Seq<char>) -> StepView {
    StepView { next: s, output: seq![message] }
}

/// The kind of text that a session waits for.
pub open spec fn expected(s: SessionView) -> Expectation {
    match s {
        SessionView::ACoeff => Expectation::Integer,
        SessionView::AExp { a_coeff } => Expectation::Exponent,
        SessionView::BCoeff { a_coeff, a_exp } => Expectation::Integer,
        SessionView::BExp { a_coeff, a_exp, b_coeff } => Expectation::Exponent,
        SessionView::Power { a_coeff, a_exp, b_coeff, b_exp } => Expectation::Exponent,
        SessionView::Choice { binomial } => Expectation::Answer,
        SessionView::ValueOfA { binomial } => Expectation::Integer,
        SessionView::ValueOfB { binomial, a } => Expectation::Integer,
        SessionView::Done => Expectation::Nothing,
    }
}

/// What a line is read as where a kind of text is expected. The line is
/// trimmed first. A number is read if the text parses as one; an answer is
/// the text in lower case.
pub open spec fn reading_of(expectation: Expectation, line: Seq<char>) -> ReadingView {
    let typed = trimmed(line);
    match expectation {
        Expectation::Integer => match parsed_integer(typed) {
            Some(v) => ReadingView::Integer(v),
            None => ReadingView::Unreadable,
        },
        Expectation::Exponent => match parsed_u32(typed) {
            Some(v) => ReadingView::Exponent(v as nat),
            None => ReadingView::Unreadable,
        },
        Expectation::Answer => ReadingView::Answer(lowercase(typed)),
        Expectation::Nothing => ReadingView::Unreadable,
    }
}

/// The step that a session takes on a reading.
///
/// A session that waits for a number takes a reading of its kind and moves
/// on; on any other reading it stays and names the type it expects. Once
/// the power is given, the whole binomial is shown. The answers `yes` and
/// `y` lead to the values of `a` and `b` and then to the value of the
/// expansion; `no` and `n` lead to the expansion itself; any other reading
/// has the question asked again. A finished session stays finished.
pub open spec fn taken(s: SessionView, r: ReadingView) -> StepView {
    match s {
        SessionView::ACoeff => match r {
            ReadingView::Integer(v) => accepted(v == 0, SessionView::AExp { a_coeff: v }),
            _ => rejected(s, "Must be BigInt"@),
        },
        SessionView::AExp { a_coeff } => match r {
            ReadingView::Exponent(v) => accepted(v == 0, SessionView::BCoeff { a_coeff, a_exp: v }),
            _ => rejected(s, "Must be u32"@),
        },
        SessionView::BCoeff { a_coeff, a_exp } => match r {
            ReadingView::Integer(v) => accepted(
                v == 0,
                SessionView::BExp { a_coeff, a_exp, b_coeff: v },
            ),
            _ => rejected(s, "Must be BigInt"@),
        },
        SessionView::BExp { a_coeff, a_exp, b_coeff } => match r {
            ReadingView::Exponent(v) => accepted(
                v == 0,
                SessionView::Power { a_coeff, a_exp, b_coeff, b_exp: v },
            ),
            _ => rejected(s, "Must be u32"@),
        },
        SessionView::Power { a_coeff, a_exp, b_coeff, b_exp } => match r {
            ReadingView::Exponent(v) => {
                let binomial = BinomialView { a_coeff, a_exp, b_coeff, b_exp, n: v };
                let next = SessionView::Choice { binomial };
                StepView {
                    next,
                    output: zero_notice(v == 0).push("\n"@ + binomial_text(binomial)).push(
                        prompt_text(next),
                    ),
                }
            },
            _ => rejected(s, "Must be u32"@),
        },
        SessionView::Choice { binomial } => match r {
            ReadingView::Answer(answer) => if answer == "yes"@ || answer == "y"@ {
                accepted(false, SessionView::ValueOfA { binomial })
            } else if answer == "no"@ || answer == "n"@ {
                StepView {
                    next: SessionView::Done,
                    output: seq!["\n"@ + terms_text(expansion(binomial))],
                }
            } else {
                rejected(s, prompt_text(s))
            },
            _ => rejected(s, prompt_text(s)),
        },
        SessionView::ValueOfA { binomial } => match r {
            ReadingView::Integer(v) => accepted(v == 0, SessionView::ValueOfB { binomial, a: v }),
            _ => rejected(s, "Must be BigInt"@),
        },
        SessionView::ValueOfB { binomial, a } => match r {
            ReadingView::Integer(v) => StepView {
                next: SessionView::Done,
                output: zero_notice(v == 0).push(
                    "\n"@ + decimal(evaluation(expansion(binomial), a, v)),
                ),
            },
            _ => rejected(s, "Must be BigInt"@),
        },
        SessionView::Done => StepView { next: s, output: Seq::empty() },
    }
}

/// The step that a session takes on a typed line: the line is read as the
/// session expects, and the session decides on the reading.
pub open spec fn advanced(s: SessionView, line: Seq<char>) -> StepView {
    taken(s, reading_of(expected(s), line))
}

/// Reads a typed line as a kind of text.
pub fn read(expectation: Expectation, line: &str) -> (reading: Reading)
    ensures
        reading@ == reading_of(expectation, line@),
{
    let typed = trim(line);
    match expectation {
        Expectation::Integer => match parse_integer(typed) {
            Ok(v) => Reading::Integer(v),
            Err(_) => Reading::Unreadable,
        },
        Expectation::Exponent => match parse_u32(typed) {
            Ok(v) => Reading::Exponent(v),
            Err(_) => Reading::Unreadable,
        },
        Expectation::Answer => Reading::Answer(to_lowercase(typed)),
        Expectation::Nothing => Reading::Unreadable,
    }
}

/// The strings for the advisory on a zero value.
fn notice(zero: bool) -> (output: Vec<String>)
    ensures
        texts(output@) == zero_notice(zero),
{
    let mut output: Vec<String> = Vec::new();
    if zero {
        output.push("WARNING: Null values can cause undefined behavior".to_owned());
    }
    proof {
        assert(texts(output@) =~= zero_notice(zero));
    }
    output
}

/// Adds a text at the end of the texts to show.
fn show(output: &mut Vec<String>, text: String)
    ensures
        texts(final(output)@) == texts(old(output)@).push(text@),
{
    output.push(text);
    proof {
        assert(texts(output@) =~= texts(old(output)@).push(text@));
    }
}

/// A line break followed by a text.
fn on_new_line(text: &str) -> (line: String)
    ensures
        line@ == "\n"@ + text@,
{
    let mut line = String::new();
    append(&mut line, "\n");
    append(&mut line, text);
    line
}

/// The step on a value that was taken.
fn accept(zero: bool, next: Session) -> (step: Step)
    ensures
        step@ == accepted(zero, next@),
{
    let mut output = notice(zero);
    show(&mut output, next.prompt());
    Step { next, output }
}

/// The step on a reading that was not taken.
fn reject(state: Session, message: String) -> (step: Step)
    ensures
        step@ == rejected(state@, message@),
{
    let mut output: Vec<String> = Vec::new();
    show(&mut output, message);
    proof {
        assert(texts(output@) =~= seq![message@]);
    }
    Step { next: state, output }
}

impl Session {
    /// The beginning of a dialogue: the first question is shown and the
    /// coefficient of `a` is waited for.
    pub fn start() -> (step: Step)
        ensures
            step@ == accepted(false, SessionView::ACoeff),
    {
        accept(false, Session::ACoeff)
    }

    /// Whether the dialogue is over.
    pub fn is_done(&self) -> (done: bool)
        ensures
            done == (self@ is Done),
    {
        match self {
            Session::Done => true,
            _ => false,
        }
    }

    /// The question that the session asks.
    pub fn prompt(&self) -> (text: String)
        ensures
            text@ == prompt_text(self@),
    {
        let mut text = String::new();
        match self {
            Session::ACoeff => {
                append(&mut text, "(\u{03B1}a^\u{03B2}+\u{03B3}b^\u{03B4})^n\nlet \u{03B1} =");
            },
            Session::AExp { a_coeff } => {
                append(&mut text, "\n(");
                append(&mut text, decimal_of_integer(a_coeff).as_str());
                append(&mut text, "a^\u{03B2}+\u{03B3}b^\u{03B4})^n\nlet \u{03B2} =");
            },
            Session::BCoeff { a_coeff, a_exp } => {
                append(&mut text, "\n(");
                append(&mut text, decimal_of_integer(a_coeff).as_str());
                append(&mut text, "a^");
                append(&mut text, decimal_of_u64(*a_exp as u64).as_str());
                append(&mut text, "+\u{03B3}b^\u{03B4})^n\nlet \u{03B3} =");
            },
            Session::BExp { a_coeff, a_exp, b_coeff } => {
                append(&mut text, "\n(");
                append(&mut text, decimal_of_integer(a_coeff).as_str());
                append(&mut text, "a^");
                append(&mut text, decimal_of_u64(*a_exp as u64).as_str());
                append(&mut text, signed_decimal_of_integer(b_coeff).as_str());
                append(&mut text, "b^\u{03B4})^n\nlet \u{03B4} =");
            },
            Session::Power { a_coeff, a_exp, b_coeff, b_exp } => {
                append(&mut text, "\n(");
                append(&mut text, decimal_of_integer(a_coeff).as_str());
                append(&mut text, "a^");
                append(&mut text, decimal_of_u64(*a_exp as u64).as_str());
                append(&mut text, signed_decimal_of_integer(b_coeff).as_str());
                append(&mut text, "b^");
                append(&mut text, decimal_of_u64(*b_exp as u64).as_str());
                append(&mut text, ")^n\nlet n =");
            },
            Session::Choice { binomial } => {
                append(&mut text, "\nevaluate expression? Y/n");
            },
            Session::ValueOfA { binomial } => {
                append(&mut text, "\nlet a =");
            },
            Session::ValueOfB { binomial, a } => {
                append(&mut text, "\nlet b =");
            },
            Session::Done => {},
        }
        text
    }

    /// The kind of text that the session waits for.
    pub fn expects(&self) -> (expectation: Expectation)
        ensures
            expectation == expected(self@),
    {
        match self {
            Session::ACoeff => Expectation::Integer,
            Session::AExp { a_coeff } => Expectation::Exponent,
            Session::BCoeff { a_coeff, a_exp } => Expectation::Integer,
            Session::BExp { a_coeff, a_exp, b_coeff } => Expectation::Exponent,
            Session::Power { a_coeff, a_exp, b_coeff, b_exp } => Expectation::Exponent,
            Session::Choice { binomial } => Expectation::Answer,
            Session::ValueOfA { binomial } => Expectation::Integer,
            Session::ValueOfB { binomial, a } => Expectation::Integer,
            Session::Done => Expectation::Nothing,
        }
    }

    /// Decides on a reading: the session that follows and the texts to show.
    pub fn take(self, reading: Reading) -> (step: Step)
        ensures
            step@ == taken(self@, reading@),
    {
        match self {
            Session::ACoeff => match reading {
                Reading::Integer(v) => accept(is_zero(&v), Session::AExp { a_coeff: v }),
                _ => reject(Session::ACoeff, "Must be BigInt".to_owned()),
            },
            Session::AExp { a_coeff } => match reading {
                Reading::Exponent(v) => accept(v == 0, Session::BCoeff { a_coeff, a_exp: v }),
                _ => reject(Session::AExp { a_coeff }, "Must be u32".to_owned()),
            },
            Session::BCoeff { a_coeff, a_exp } => match reading {
                Reading::Integer(v) => accept(
                    is_zero(&v),
                    Session::BExp { a_coeff, a_exp, b_coeff: v },
                ),
                _ => reject(Session::BCoeff { a_coeff, a_exp }, "Must be BigInt".to_owned()),
            },
            Session::BExp { a_coeff, a_exp, b_coeff } => match reading {
                Reading::Exponent(v) => accept(
                    v == 0,
                    Session::Power { a_coeff, a_exp, b_coeff, b_exp: v },
                ),
                _ => reject(Session::BExp { a_coeff, a_exp, b_coeff }, "Must be u32".to_owned()),
            },
            Session::Power { a_coeff, a_exp, b_coeff, b_exp } => match reading {
                Reading::Exponent(v) => {
                    let binomial = Binomial::from(a_coeff, a_exp, b_coeff, b_exp, v);
                    let mut output = notice(v == 0);
                    show(&mut output, on_new_line(binomial.render().as_str()));
                    let next = Session::Choice { binomial };
                    show(&mut output, next.prompt());
                    Step { next, output }
                },
                _ => reject(
                    Session::Power { a_coeff, a_exp, b_coeff, b_exp },
                    "Must be u32".to_owned(),
                ),
            },
            Session::Choice { binomial } => {
                let (yes, no) = match reading {
                    Reading::Answer(answer) => (
                        answer == "yes".to_owned() || answer == "y".to_owned(),
                        answer == "no".to_owned() || answer == "n".to_owned(),
                    ),
                    _ => (false, false),
                };
                if yes {
                    accept(false, Session::ValueOfA { binomial })
                } else if no {
                    let mut output: Vec<String> = Vec::new();
                    show(&mut output, on_new_line(binomial.expand().render().as_str()));
                    proof {
                        assert(texts(output@) =~= seq!["\n"@ + terms_text(expansion(binomial@))]);
                    }
                    Step { next: Session::Done, output }
                } else {
                    let state = Session::Choice { binomial };
                    let again = state.prompt();
                    reject(state, again)
                }
            },
            Session::ValueOfA { binomial } => match reading {
                Reading::Integer(v) => accept(is_zero(&v), Session::ValueOfB { binomial, a: v }),
                _ => reject(Session::ValueOfA { binomial }, "Must be BigInt".to_owned()),
            },
            Session::ValueOfB { binomial, a } => match reading {
                Reading::Integer(v) => {
                    let mut output = notice(is_zero(&v));
                    let value = binomial.expand().eval(a, v);
                    show(&mut output, on_new_line(decimal_of_integer(&value).as_str()));
                    Step { next: Session::Done, output }
                },
                _ => reject(Session::ValueOfB { binomial, a }, "Must be BigInt".to_owned()),
            },
            Session::Done => {
                let output: Vec<String> = Vec::new();
                proof {
                    assert(texts(output@) =~= Seq::<Seq<char>>::empty());
                }
                Step { next: Session::Done, output }
            },
        }
    }

    /// Takes a typed line: the session that follows and the texts to show.
    pub fn advance(self, line: &str) -> (step: Step)
        ensures
            step@ == advanced(self@, line@),
    {
        let reading = read(self.expects(), line);
        self.take(reading)
    }
}

} // verus!

//! Symbolic expansion of `(p·a^s + q·b^t)^n` by the binomial theorem, with
//! exact evaluation over arbitrary-precision integers.
//!
//! - [`combinatorics`]: binomial coefficients, defined by Pascal's rule and
//!   computed exactly.
//! - [`expansion`]: a binomial, the terms of its expansion, and the
//!   evaluation and partial substitution of expressions.
//! - [`theorem`]: the binomial theorem and the other laws of the library.
//! - [`render`]: binomials, terms and expressions as text.
//! - [`session`]: the dialogue that asks for a binomial, as a state machine.
//! - [`integer`], [`text`], [`input`]: what the library takes from
//!   `num_bigint` and `std` without proof.
//!
//! Every contract is stated over mathematical integers: a big integer is
//! read through [`integer::int_of`]; a term, an expression, a binomial and a
//! session through their views.

pub mod combinatorics;
pub mod expansion;
pub mod input;
pub mod integer;
pub mod render;
pub mod session;
pub mod text;
pub mod theorem;

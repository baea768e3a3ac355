//! A small arithmetic-equation library: it validates the lexical structure of
//! an infix equation over non-negative decimal literals and the four binary
//! operators, splits the equation into its number and operator tokens, and
//! decides which error, if any, an evaluation of the equation must report.
//!
//! The arithmetic itself is carried out by the caller on the token lists that
//! [`check::check_equation`] hands back; everything up to that point is
//! verified here.

pub mod check;
pub mod classes;
pub mod laws;
pub mod literal;
pub mod tokenize;
pub mod validate;

pub use check::check_equation;
pub use check::CheckedEquation;
pub use check::ErrorKind;
pub use tokenize::extract_numbers;
pub use tokenize::extract_operators;
pub use validate::validate_equation;

//! The evaluation check.
//!
//! Evaluating an equation can fail in exactly five ways, and all five are
//! decided here, on the text and its tokens alone, before any arithmetic
//! is performed. [`check_equation`] either reports the first failure, in
//! the order an evaluator meets them, or hands back the token lists of an
//! equation that passed every check: validation succeeded, every literal
//! parses, the token counts agree, and no division has the literal zero
//! as its divisor. The zero guarantee is at the literal level — a divisor
//! with a nonzero digit can still be so small that parsing rounds it to
//! zero — so a caller doing the arithmetic still guards each parsed
//! divisor before dividing.

use vstd::prelude::*;

use crate::literal::literal_is_zero;
use crate::literal::literal_well_formed;
use crate::literal::spec_well_formed_literal;
use crate::literal::spec_zero_literal;
use crate::tokenize::extract_numbers;
use crate::tokenize::extract_operators;
use crate::tokenize::spec_numbers;
use crate::tokenize::spec_operators;
use crate::validate::valid_equation;
use crate::validate::validate_equation;

verus! {

/// Why an equation cannot be evaluated.
#[derive(Clone, Debug, PartialEq, Eq)]
pub enum ErrorKind {
    /// The text is not a structurally well-formed equation.
    InvalidFormat,
    /// The carried literal is not a well-formed number.
    InvalidNumber(String),
    /// The equation holds no number literal at all.
    NoNumbers,
    /// The literal count does not exceed the operator count by one.
    CountMismatch,
    /// Some division's right-hand operand is the literal zero.
    DivisionByZero,
}

/// The token lists of an equation that passed every check, ready for a
/// two-pass evaluation.
#[derive(Clone, Debug, PartialEq, Eq)]
pub struct CheckedEquation {
    /// The number literals, in order; each is well formed.
    pub numbers: Vec<String>,
    /// The operators, in order; one fewer than the literals, and no
    /// division among them has a zero literal as its divisor.
    pub operators: Vec<char>,
}

/// Every literal of `ts` is well formed.
pub open spec fn all_literals_well_formed(ts: Seq<Seq<char>>) -> bool {
    forall|k: int| 0 <= k < ts.len() ==> spec_well_formed_literal(#[trigger] ts[k])
}

/// `ts[k]` is the first malformed literal of `ts`.
pub open spec fn first_malformed_at(ts: Seq<Seq<char>>, k: int) -> bool {
    &&& 0 <= k < ts.len()
    &&& !spec_well_formed_literal(ts[k])
    &&& forall|j: int| 0 <= j < k ==> spec_well_formed_literal(#[trigger] ts[j])
}

/// Some division pairs with a zero literal: operator `i` acts on literals
/// `i` and `i + 1`, so this says a `/` whose right-hand literal is zero.
pub open spec fn has_zero_divisor(ops: Seq<char>, ts: Seq<Seq<char>>) -> bool {
    exists|i: int| 0 <= i < ops.len() && #[trigger] ops[i] == '/' && spec_zero_literal(ts[i + 1])
}

/// The guarantees that hold of a [`CheckedEquation`]: what its fields are
/// for the equation text `s`.
pub open spec fn checked_for(eq: CheckedEquation, s: Seq<char>) -> bool {
    &&& valid_equation(s)
    &&& eq.numbers.deep_view() == spec_numbers(s)
    &&& eq.operators@ == spec_operators(s)
    &&& all_literals_well_formed(spec_numbers(s))
    &&& spec_numbers(s).len() > 0
    &&& spec_numbers(s).len() == spec_operators(s).len() + 1
    &&& !has_zero_divisor(spec_operators(s), spec_numbers(s))
}

/// Runs every check that precedes the arithmetic of an evaluation and
/// reports the first failure, or hands back the token lists on which the
/// arithmetic cannot fail.
///
/// The checks run in evaluation order: structural validation first, then
/// each literal in order, then the token counts, then each division's
/// divisor in operator order. Each error arm of the contract pins both
/// that its own check fails and that every earlier check passes, so the
/// result is determined exactly by the input text.
pub fn check_equation(input: &str) -> (r: Result<CheckedEquation, ErrorKind>)
    ensures
        match r {
            Ok(eq) => checked_for(eq, input@),
            Err(e) => match e {
                ErrorKind::InvalidFormat => !valid_equation(input@),
                ErrorKind::InvalidNumber(lit) => {
                    &&& valid_equation(input@)
                    &&& exists|k: int|
                        #[trigger] first_malformed_at(spec_numbers(input@), k) && lit@
                            == spec_numbers(input@)[k]
                },
                ErrorKind::NoNumbers => {
                    &&& valid_equation(input@)
                    &&& all_literals_well_formed(spec_numbers(input@))
                    &&& spec_numbers(input@).len() == 0
                },
                ErrorKind::CountMismatch => {
                    &&& valid_equation(input@)
                    &&& all_literals_well_formed(spec_numbers(input@))
                    &&& spec_numbers(input@).len() > 0
                    &&& spec_numbers(input@).len() != spec_operators(input@).len() + 1
                },
                ErrorKind::DivisionByZero => {
                    &&& valid_equation(input@)
                    &&& all_literals_well_formed(spec_numbers(input@))
                    &&& spec_numbers(input@).len() > 0
                    &&& spec_numbers(input@).len() == spec_operators(input@).len() + 1
                    &&& has_zero_divisor(spec_operators(input@), spec_numbers(input@))
                },
            },
        },
{
    if !validate_equation(input) {
        return Err(ErrorKind::InvalidFormat);
    }
    let numbers = extract_numbers(input);
    let operators = extract_operators(input);
    let ghost nums = spec_numbers(input@);
    let ghost ops = spec_operators(input@);
    let mut k: usize = 0;
    while k < numbers.len()
        invariant
            valid_equation(input@),
            nums == spec_numbers(input@),
            numbers.deep_view() == nums,
            forall|j: int| 0 <= j < k ==> spec_well_formed_literal(#[trigger] nums[j]),
            k <= numbers.len(),
        decreases numbers.len() - k,
    {
        proof {
            assert(numbers@[k as int]@ == nums[k as int]);
        }
        if !literal_well_formed(numbers[k].as_str()) {
            let lit = numbers[k].clone();
            proof {
                assert(first_malformed_at(spec_numbers(input@), k as int));
            }
            return Err(ErrorKind::InvalidNumber(lit));
        }
        k = k + 1;
    }
    if numbers.len() == 0 {
        return Err(ErrorKind::NoNumbers);
    }
    if numbers.len() - 1 != operators.len() {
        return Err(ErrorKind::CountMismatch);
    }
    let mut i: usize = 0;
    while i < operators.len()
        invariant
            valid_equation(input@),
            nums == spec_numbers(input@),
            ops == spec_operators(input@),
            all_literals_well_formed(nums),
            nums.len() > 0,
            numbers.deep_view() == nums,
            operators@ == ops,
            numbers@.len() == operators@.len() + 1,
            forall|j: int|
                0 <= j < i ==> !(#[trigger] ops[j] == '/' && spec_zero_literal(nums[j + 1])),
            i <= operators.len(),
        decreases operators.len() - i,
    {
        proof {
            assert(numbers@[i + 1]@ == nums[i + 1]);
        }
        if operators[i] == '/' && literal_is_zero(numbers[i + 1].as_str()) {
            proof {
                assert(ops[i as int] == '/' && spec_zero_literal(nums[i as int + 1]));
            }
            return Err(ErrorKind::DivisionByZero);
        }
        i = i + 1;
    }
    Ok(CheckedEquation { numbers, operators })
}

} // verus!

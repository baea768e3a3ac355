//! Laws relating validation and tokenization.
//!
//! The validator and the two tokenizer passes are independent functions
//! over the same text; these lemmas state what they guarantee together:
//! an equation of digits alone or of operators alone is never valid, a
//! valid equation always holds at least one number literal, and on a
//! valid equation whose literals are not split by inner whitespace the
//! literal count exceeds the operator count by exactly one.

use vstd::prelude::*;

use crate::classes::is_digit_char;
use crate::classes::is_number_char;
use crate::classes::is_operator_char;
use crate::classes::is_space_char;
use crate::tokenize::lemma_numbers_nonempty_of_trailing;
use crate::tokenize::spec_numbers;
use crate::tokenize::spec_operators;
use crate::validate::scan;
use crate::validate::seq_has_digit;
use crate::validate::seq_has_operator;
use crate::validate::valid_equation;
use crate::validate::ScanState;

verus! {

/// An equation consisting only of digits is never valid: with no
/// operator in the text, validation fails.
pub proof fn lemma_digits_only_never_valid(s: Seq<char>)
    requires
        forall|i: int| 0 <= i < s.len() ==> is_digit_char(#[trigger] s[i]),
    ensures
        !valid_equation(s),
{
    if seq_has_operator(s) {
        let i = choose|i: int| 0 <= i < s.len() && is_operator_char(#[trigger] s[i]);
        assert(is_digit_char(s[i]));
    }
}

/// An equation consisting only of operators is never valid: with no
/// digit in the text, validation fails.
pub proof fn lemma_operators_only_never_valid(s: Seq<char>)
    requires
        forall|i: int| 0 <= i < s.len() ==> is_operator_char(#[trigger] s[i]),
    ensures
        !valid_equation(s),
{
    if seq_has_digit(s) {
        let i = choose|i: int| 0 <= i < s.len() && is_digit_char(#[trigger] s[i]);
        assert(is_operator_char(s[i]));
    }
}

/// Tokenization is deterministic: each pass is a function of the text
/// alone, so extracting the operators or the numbers twice from the same
/// text yields identical sequences. The extraction contracts pin their
/// results to `spec_operators` and `spec_numbers`, so any two results for
/// the same text are equal.
pub proof fn lemma_extraction_deterministic(
    s: Seq<char>,
    ops1: Seq<char>,
    ops2: Seq<char>,
    nums1: Seq<Seq<char>>,
    nums2: Seq<Seq<char>>,
)
    requires
        ops1 == spec_operators(s),
        ops2 == spec_operators(s),
        nums1 == spec_numbers(s),
        nums2 == spec_numbers(s),
    ensures
        ops1 == ops2,
        nums1 == nums2,
{
}

/// Every character strictly between positions `i` and `j` is whitespace.
pub open spec fn space_between(s: Seq<char>, i: int, j: int) -> bool {
    forall|k: int| i < k < j ==> is_space_char(#[trigger] s[k])
}

/// No number literal of `s` is split by whitespace: two number characters
/// with nothing but whitespace between them are adjacent. Texts like
/// `5 5+3`, where whitespace separates two digits of no common literal,
/// are the ones excluded.
pub open spec fn no_split_literals(s: Seq<char>) -> bool {
    forall|i: int, j: int|
        #![trigger s[i], s[j]]
        0 <= i < j < s.len() && is_number_char(s[i]) && is_number_char(s[j]) && space_between(
            s,
            i,
            j,
        ) ==> j == i + 1
}

/// The last significant character of `s` belongs to a number literal:
/// some number character is followed by whitespace only.
pub open spec fn trailing_number(s: Seq<char>) -> bool {
    exists|i: int|
        0 <= i < s.len() && is_number_char(#[trigger] s[i]) && (forall|k: int|
            i < k < s.len() ==> is_space_char(#[trigger] s[k]))
}

/// A text that the scan leaves in state `AfterDigit` holds at least one
/// number literal.
proof fn lemma_after_digit_has_literal(s: Seq<char>)
    requires
        scan(s) matches Some(r) && r.0 is AfterDigit,
    ensures
        spec_numbers(s).len() > 0,
    decreases s.len(),
{
    if s.len() > 0 {
        let p = s.drop_last();
        let c = s.last();
        if is_number_char(c) {
            if s.len() >= 2 && is_number_char(s[s.len() - 2]) {
                lemma_numbers_nonempty_of_trailing(p);
            }
        } else {
            lemma_after_digit_has_literal(p);
        }
    }
}

/// A valid equation always holds at least one number literal, so the
/// defensive no-numbers check of the evaluation can never fire after
/// validation has passed.
pub proof fn lemma_valid_has_numbers(s: Seq<char>)
    requires
        valid_equation(s),
    ensures
        spec_numbers(s).len() > 0,
{
    lemma_after_digit_has_literal(s);
}

/// The running token counts of the scan: in state `Start` the text is
/// whitespace only and holds no token; in state `AfterDigit` it holds one
/// literal more than it holds operators and ends in a literal; in state
/// `AfterOperator` it holds exactly as many literals as operators.
proof fn lemma_scan_counts(s: Seq<char>)
    requires
        no_split_literals(s),
    ensures
        match scan(s) {
            Some(r) => {
                &&& (r.0 is Start ==> spec_numbers(s).len() == 0 && spec_operators(s).len() == 0
                    && (forall|k: int| 0 <= k < s.len() ==> is_space_char(#[trigger] s[k])))
                &&& (r.0 is AfterDigit ==> spec_numbers(s).len() == spec_operators(s).len() + 1
                    && trailing_number(s))
                &&& (r.0 is AfterOperator ==> spec_numbers(s).len() == spec_operators(s).len())
            },
            None => true,
        },
    decreases s.len(),
{
    if s.len() == 0 {
        return;
    }
    let p = s.drop_last();
    let c = s.last();
    let n = s.len() as int;
    assert forall|i: int, j: int|
        #![trigger p[i], p[j]]
        0 <= i < j < p.len() && is_number_char(p[i]) && is_number_char(p[j]) && space_between(
            p,
            i,
            j,
        ) implies j == i + 1 by {
        assert(s[i] == p[i]);
        assert(s[j] == p[j]);
        assert forall|k: int| i < k < j implies is_space_char(#[trigger] s[k]) by {
            assert(s[k] == p[k]);
            assert(is_space_char(p[k]));
        }
        assert(space_between(s, i, j));
    }
    lemma_scan_counts(p);
    if scan(p) is Some {
        let st = scan(p)->Some_0.0;
        if is_number_char(c) {
            if st is Start {
                if p.len() > 0 {
                    assert(is_space_char(p[p.len() - 1]));
                }
                assert(spec_numbers(s) == spec_numbers(p).push(seq![c]));
                assert(trailing_number(s)) by {
                    assert(is_number_char(s[n - 1]));
                }
            } else if st is AfterDigit {
                let i = choose|i: int|
                    0 <= i < p.len() && is_number_char(#[trigger] p[i]) && (forall|k: int|
                        i < k < p.len() ==> is_space_char(#[trigger] p[k]));
                assert(s[i] == p[i]);
                assert(is_number_char(s[n - 1]));
                if i < p.len() - 1 {
                    assert(space_between(s, i, n - 1)) by {
                        assert forall|k: int| i < k < n - 1 implies is_space_char(
                            #[trigger] s[k],
                        ) by {
                            assert(s[k] == p[k]);
                        }
                    }
                    assert(false);
                }
                assert(is_number_char(s[n - 2]));
                let rest = spec_numbers(p);
                assert(rest.len() > 0);
                assert(spec_numbers(s) == rest.update(rest.len() - 1, rest.last().push(c)));
                assert(trailing_number(s)) by {
                    assert(is_number_char(s[n - 1]));
                }
            } else {
                assert(!is_number_char(p.last()));
                assert(spec_numbers(s) == spec_numbers(p).push(seq![c]));
                assert(trailing_number(s)) by {
                    assert(is_number_char(s[n - 1]));
                }
            }
        } else if is_space_char(c) {
            if st is Start {
                assert forall|k: int| 0 <= k < n implies is_space_char(#[trigger] s[k]) by {
                    if k < n - 1 {
                        assert(s[k] == p[k]);
                        assert(is_space_char(p[k]));
                    } else {
                        assert(s[k] == c);
                    }
                }
            }
            if st is AfterDigit {
                let i = choose|i: int|
                    0 <= i < p.len() && is_number_char(#[trigger] p[i]) && (forall|k: int|
                        i < k < p.len() ==> is_space_char(#[trigger] p[k]));
                assert(s[i] == p[i]);
                assert(trailing_number(s)) by {
                    assert(is_number_char(s[i]));
                    assert forall|k: int| i < k < n implies is_space_char(#[trigger] s[k]) by {
                        if k < n - 1 {
                            assert(s[k] == p[k]);
                            assert(is_space_char(p[k]));
                        } else {
                            assert(s[k] == c);
                        }
                    }
                }
            }
        }
    }
}

/// On a valid equation whose literals are not split by inner whitespace,
/// the number of literals exceeds the number of operators by exactly one
/// — the shape a two-pass evaluation relies on.
pub proof fn lemma_valid_token_counts(s: Seq<char>)
    requires
        valid_equation(s),
        no_split_literals(s),
    ensures
        spec_numbers(s).len() == spec_operators(s).len() + 1,
{
    lemma_scan_counts(s);
}

} // verus!

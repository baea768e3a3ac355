//! Structural validation of an equation.
//!
//! A scan walks the characters once, tracking whether the last significant
//! (non-whitespace) character was part of a number or was an operator. The
//! scan rejects an operator that does not directly follow a number (a
//! leading operator, or two operators in a row) and any character outside
//! the grammar. The equation is valid when the scan survives, ends on a
//! number character, saw at least one operator followed by a number
//! character, and the text holds at least one digit and one operator.
//!
//! The scan deliberately treats the dot like a digit, so a literal with
//! several dots (as in `1.2.3+4`) still counts as structurally valid; that
//! literal is only rejected later, when the literals themselves are
//! checked.

use vstd::prelude::*;
use vstd::string::*;

use crate::classes::is_digit_char;
use crate::classes::is_number_char;
use crate::classes::is_operator_char;
use crate::classes::is_space_char;

verus! {

/// What the last significant character of the text read so far was.
#[derive(Clone, Copy, Debug, PartialEq, Eq, Structural)]
pub enum ScanState {
    /// Nothing significant seen yet: only whitespace so far.
    Start,
    /// The last significant character was a digit or a dot.
    AfterDigit,
    /// The last significant character was an operator.
    AfterOperator,
}

/// One step of the scan: the state and the structure flag after reading
/// character `c`, or `None` when `c` is rejected. The structure flag
/// records that some operator was already followed by a number character.
pub open spec fn scan_step(st: ScanState, structure: bool, c: char) -> Option<(ScanState, bool)> {
    if is_number_char(c) {
        Some((ScanState::AfterDigit, structure || st is AfterOperator))
    } else if is_operator_char(c) {
        if st is AfterDigit {
            Some((ScanState::AfterOperator, structure))
        } else {
            None
        }
    } else if is_space_char(c) {
        Some((st, structure))
    } else {
        None
    }
}

/// The scan over a whole text, character by character from the left.
pub open spec fn scan(s: Seq<char>) -> Option<(ScanState, bool)>
    decreases s.len(),
{
    if s.len() == 0 {
        Some((ScanState::Start, false))
    } else {
        match scan(s.drop_last()) {
            Some(r) => scan_step(r.0, r.1, s.last()),
            None => None,
        }
    }
}

/// Some character of `s` is an ASCII digit.
pub open spec fn seq_has_digit(s: Seq<char>) -> bool {
    exists|i: int| 0 <= i < s.len() && is_digit_char(#[trigger] s[i])
}

/// Some character of `s` is an operator.
pub open spec fn seq_has_operator(s: Seq<char>) -> bool {
    exists|i: int| 0 <= i < s.len() && is_operator_char(#[trigger] s[i])
}

/// A structurally well-formed equation: it holds a digit and an operator,
/// the scan accepts every character, the last significant character is a
/// number character, and at least one operator is followed by a number
/// character.
pub open spec fn valid_equation(s: Seq<char>) -> bool {
    &&& seq_has_digit(s)
    &&& seq_has_operator(s)
    &&& match scan(s) {
        Some(r) => r.0 is AfterDigit && r.1,
        None => false,
    }
}

/// Once the scan has rejected a prefix, it rejects every extension.
proof fn lemma_scan_rejects_extension(s: Seq<char>, m: int)
    requires
        0 <= m <= s.len(),
        scan(s.take(m)) is None,
    ensures
        scan(s) is None,
    decreases s.len() - m,
{
    if m == s.len() {
        assert(s.take(m) =~= s);
    } else {
        assert(s.take(m + 1).drop_last() =~= s.take(m));
        lemma_scan_rejects_extension(s, m + 1);
    }
}

/// Appending a character keeps every earlier digit and adds one exactly
/// when the new character is a digit; likewise for operators.
proof fn lemma_has_class_push(p: Seq<char>, c: char)
    ensures
        seq_has_digit(p.push(c)) == (seq_has_digit(p) || is_digit_char(c)),
        seq_has_operator(p.push(c)) == (seq_has_operator(p) || is_operator_char(c)),
{
    let q = p.push(c);
    assert(q[p.len() as int] == c);
    assert forall|i: int| 0 <= i < p.len() implies q[i] == p[i] by {}
    if seq_has_digit(q) {
        let i = choose|i: int| 0 <= i < q.len() && is_digit_char(#[trigger] q[i]);
        if i < p.len() {
            assert(is_digit_char(p[i]));
        }
    }
    if seq_has_operator(q) {
        let i = choose|i: int| 0 <= i < q.len() && is_operator_char(#[trigger] q[i]);
        if i < p.len() {
            assert(is_operator_char(p[i]));
        }
    }
}

/// Decides whether `input` is a structurally well-formed equation.
///
/// Whitespace between tokens is ignored; a lone number, a lone operator,
/// a leading or trailing operator, two operators in a row, and any
/// character outside the grammar all make the equation invalid.
pub fn validate_equation(input: &str) -> (r: bool)
    ensures
        r == valid_equation(input@),
{
    let n = input.unicode_len();
    let mut has_digit = false;
    let mut has_operator = false;
    let mut st = ScanState::Start;
    let mut structure = false;
    let mut i: usize = 0;
    while i < n
        invariant
            n == input@.len(),
            0 <= i <= n,
            has_digit == seq_has_digit(input@.take(i as int)),
            has_operator == seq_has_operator(input@.take(i as int)),
            scan(input@.take(i as int)) == Some((st, structure)),
        decreases n - i,
    {
        let c = input.get_char(i);
        proof {
            let p = input@.take(i as int);
            let q = input@.take(i as int + 1);
            assert(q.drop_last() =~= p);
            assert(q.last() == c);
            assert(q =~= p.push(c));
            lemma_has_class_push(p, c);
        }
        if is_number_char(c) {
            if st == ScanState::AfterOperator {
                structure = true;
            }
            st = ScanState::AfterDigit;
            if is_digit_char(c) {
                has_digit = true;
            }
        } else if is_operator_char(c) {
            if st == ScanState::AfterDigit {
                st = ScanState::AfterOperator;
                has_operator = true;
            } else {
                proof {
                    let q = input@.take(i as int + 1);
                    assert(scan(q) == scan_step(st, structure, c));
                    lemma_scan_rejects_extension(input@, i as int + 1);
                }
                return false;
            }
        } else if is_space_char(c) {
            // whitespace changes nothing
        } else {
            proof {
                let q = input@.take(i as int + 1);
                assert(scan(q) == scan_step(st, structure, c));
                lemma_scan_rejects_extension(input@, i as int + 1);
            }
            return false;
        }
        i = i + 1;
    }
    proof {
        assert(input@.take(n as int) =~= input@);
    }
    has_digit && has_operator && structure && st == ScanState::AfterDigit
}

} // verus!

//! Number literals.
//!
//! The tokenizer hands back every maximal run of digits and dots, so a
//! literal can still be malformed: it may hold no digit at all (`.`) or
//! more than one dot (`1.2.3`). A literal is well formed exactly when a
//! decimal parser accepts it: at least one digit and at most one dot, with
//! no other characters. A well-formed literal denotes zero exactly when
//! every digit in it is `0`.

use vstd::prelude::*;
use vstd::string::*;

use crate::classes::is_digit_char;
use crate::classes::is_number_char;
use crate::validate::seq_has_digit;

verus! {

/// A literal that a decimal parser accepts: nonempty, made of digits and
/// dots only, with at least one digit and at most one dot.
pub open spec fn spec_well_formed_literal(t: Seq<char>) -> bool {
    &&& t.len() > 0
    &&& forall|i: int| 0 <= i < t.len() ==> is_number_char(#[trigger] t[i])
    &&& seq_has_digit(t)
    &&& forall|i: int, j: int|
        0 <= i < j < t.len() ==> !(#[trigger] t[i] == '.' && #[trigger] t[j] == '.')
}

/// A well-formed literal whose value is exactly zero: every digit in it
/// is `0`.
pub open spec fn spec_zero_literal(t: Seq<char>) -> bool {
    &&& spec_well_formed_literal(t)
    &&& forall|i: int| 0 <= i < t.len() ==> (#[trigger] t[i] == '0' || t[i] == '.')
}

/// Decides whether `t` is a well-formed number literal.
pub fn literal_well_formed(t: &str) -> (r: bool)
    ensures
        r == spec_well_formed_literal(t@),
{
    let n = t.unicode_len();
    if n == 0 {
        return false;
    }
    let mut has_digit = false;
    let mut dot_seen = false;
    let mut i: usize = 0;
    while i < n
        invariant
            n == t@.len(),
            0 <= i <= n,
            forall|k: int| 0 <= k < i ==> is_number_char(#[trigger] t@[k]),
            has_digit == seq_has_digit(t@.take(i as int)),
            dot_seen ==> exists|k: int| 0 <= k < i && #[trigger] t@[k] == '.',
            !dot_seen ==> forall|k: int| 0 <= k < i ==> #[trigger] t@[k] != '.',
            forall|a: int, b: int|
                0 <= a < b < i ==> !(#[trigger] t@[a] == '.' && #[trigger] t@[b] == '.'),
        decreases n - i,
    {
        let c = t.get_char(i);
        if !is_number_char(c) {
            return false;
        }
        if is_digit_char(c) {
            proof {
                assert(t@.take(i as int + 1)[i as int] == c);
            }
            has_digit = true;
        } else {
            proof {
                let p = t@.take(i as int);
                let q = t@.take(i as int + 1);
                assert(q.drop_last() =~= p);
                if seq_has_digit(q) {
                    let w = choose|w: int| 0 <= w < q.len() && is_digit_char(#[trigger] q[w]);
                    if w < i {
                        assert(is_digit_char(p[w]));
                    }
                }
            }
        }
        if c == '.' {
            if dot_seen {
                proof {
                    let k = choose|k: int| 0 <= k < i && #[trigger] t@[k] == '.';
                    assert(t@[k] == '.' && t@[i as int] == '.');
                }
                return false;
            }
            dot_seen = true;
        }
        i = i + 1;
    }
    proof {
        assert(t@.take(n as int) =~= t@);
    }
    has_digit
}

/// Decides whether `t` is a well-formed literal denoting exactly zero.
pub fn literal_is_zero(t: &str) -> (r: bool)
    ensures
        r == spec_zero_literal(t@),
{
    if !literal_well_formed(t) {
        return false;
    }
    let n = t.unicode_len();
    let mut i: usize = 0;
    while i < n
        invariant
            n == t@.len(),
            0 <= i <= n,
            spec_well_formed_literal(t@),
            forall|k: int| 0 <= k < i ==> (#[trigger] t@[k] == '0' || t@[k] == '.'),
        decreases n - i,
    {
        let c = t.get_char(i);
        if c != '0' && c != '.' {
            return false;
        }
        i = i + 1;
    }
    true
}

} // verus!

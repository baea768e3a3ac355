//! Tokenization of an equation.
//!
//! Two independent passes over the same text: one keeps exactly the
//! operator characters, in order; the other gathers every maximal run of
//! number characters (digits and dots) into a number literal, in order.
//! Neither pass validates anything — on ill-formed input they still return
//! whatever tokens the text holds.

use vstd::prelude::*;
use vstd::string::*;

use crate::classes::is_number_char;
use crate::classes::is_operator_char;

verus! {

/// The operator characters of `s`, in order.
pub open spec fn spec_operators(s: Seq<char>) -> Seq<char>
    decreases s.len(),
{
    if s.len() == 0 {
        Seq::empty()
    } else {
        let rest = spec_operators(s.drop_last());
        if is_operator_char(s.last()) {
            rest.push(s.last())
        } else {
            rest
        }
    }
}

/// The number literals of `s`, in order: the maximal runs of number
/// characters. A trailing number character either extends the literal it
/// directly follows or, after a character of another class, opens a new
/// literal.
pub open spec fn spec_numbers(s: Seq<char>) -> Seq<Seq<char>>
    decreases s.len(),
{
    if s.len() == 0 {
        Seq::empty()
    } else {
        let rest = spec_numbers(s.drop_last());
        let c = s.last();
        if is_number_char(c) {
            if s.len() >= 2 && is_number_char(s[s.len() - 2]) {
                rest.update(rest.len() - 1, rest.last().push(c))
            } else {
                rest.push(seq![c])
            }
        } else {
            rest
        }
    }
}

/// A text that ends in a number character holds at least one literal.
pub(crate) proof fn lemma_numbers_nonempty_of_trailing(s: Seq<char>)
    requires
        s.len() > 0,
        is_number_char(s.last()),
    ensures
        spec_numbers(s).len() > 0,
    decreases s.len(),
{
    if s.len() >= 2 && is_number_char(s[s.len() - 2]) {
        lemma_numbers_nonempty_of_trailing(s.drop_last());
    }
}

/// Collects the operator characters of `input`, in order.
///
/// A pure filter: it accepts any text, valid equation or not.
pub fn extract_operators(input: &str) -> (r: Vec<char>)
    ensures
        r@ == spec_operators(input@),
{
    let n = input.unicode_len();
    let mut r: Vec<char> = Vec::new();
    let mut i: usize = 0;
    while i < n
        invariant
            n == input@.len(),
            0 <= i <= n,
            r@ == spec_operators(input@.take(i as int)),
        decreases n - i,
    {
        let c = input.get_char(i);
        proof {
            let p = input@.take(i as int);
            let q = input@.take(i as int + 1);
            assert(q.drop_last() =~= p);
            assert(q.last() == c);
        }
        if is_operator_char(c) {
            r.push(c);
        }
        i = i + 1;
    }
    proof {
        assert(input@.take(n as int) =~= input@);
    }
    r
}

/// Collects the number literals of `input`, in order.
///
/// A pure scan for maximal runs of digits and dots: it accepts any text,
/// valid equation or not, and returns an empty list when the text holds no
/// number character.
pub fn extract_numbers(input: &str) -> (r: Vec<String>)
    ensures
        r.deep_view() == spec_numbers(input@),
{
    let n = input.unicode_len();
    let mut r: Vec<String> = Vec::new();
    let mut run_start: usize = 0;
    let mut in_run = false;
    let mut i: usize = 0;
    while i < n
        invariant
            n == input@.len(),
            0 <= i <= n,
            in_run ==> run_start < i,
            in_run ==> forall|k: int|
                run_start <= k < i ==> is_number_char(#[trigger] input@[k]),
            in_run ==> (run_start == 0 || !is_number_char(input@[run_start - 1])),
            in_run ==> spec_numbers(input@.take(i as int)) == r.deep_view().push(
                input@.subrange(run_start as int, i as int),
            ),
            !in_run ==> spec_numbers(input@.take(i as int)) == r.deep_view(),
            !in_run ==> (i == 0 || !is_number_char(input@[i - 1])),
        decreases n - i,
    {
        let c = input.get_char(i);
        proof {
            let p = input@.take(i as int);
            let q = input@.take(i as int + 1);
            assert(q.drop_last() =~= p);
            assert(q.last() == c);
        }
        if is_number_char(c) {
            if !in_run {
                run_start = i;
                in_run = true;
                proof {
                    let q = input@.take(i as int + 1);
                    assert(spec_numbers(q) == r.deep_view().push(seq![c]));
                    assert(input@.subrange(i as int, i as int + 1) =~= seq![c]);
                }
            } else {
                proof {
                    let p = input@.take(i as int);
                    let q = input@.take(i as int + 1);
                    let old_tok = input@.subrange(run_start as int, i as int);
                    let new_tok = input@.subrange(run_start as int, i as int + 1);
                    assert(q[i as int - 1] == input@[i as int - 1]);
                    assert(is_number_char(q[q.len() - 2]));
                    let rest = r.deep_view().push(old_tok);
                    assert(rest.last() == old_tok);
                    assert(new_tok =~= old_tok.push(c));
                    assert(rest.update(rest.len() - 1, old_tok.push(c)) =~= r.deep_view().push(
                        new_tok,
                    ));
                    assert(spec_numbers(q) == r.deep_view().push(new_tok));
                }
            }
        } else {
            if in_run {
                let tok = input.substring_char(run_start, i);
                let owned = String::from_str(tok);
                proof {
                    let p = input@.take(i as int);
                    let q = input@.take(i as int + 1);
                    assert(owned@ == input@.subrange(run_start as int, i as int));
                    lemma_deep_view_push(r, owned);
                    assert(spec_numbers(q) == spec_numbers(p));
                }
                r.push(owned);
                in_run = false;
            }
        }
        i = i + 1;
    }
    if in_run {
        let tok = input.substring_char(run_start, n);
        let owned = String::from_str(tok);
        proof {
            lemma_deep_view_push(r, owned);
            assert(input@.take(n as int) =~= input@);
        }
        r.push(owned);
    } else {
        proof {
            assert(input@.take(n as int) =~= input@);
        }
    }
    r
}

/// Pushing a string onto a vector appends its character sequence to the
/// vector's deep view.
proof fn lemma_deep_view_push(v: Vec<String>, t: String)
    ensures
        forall|w: Vec<String>|
            w@ == v@.push(t) ==> #[trigger] w.deep_view() == v.deep_view().push(t@),
{
    assert forall|w: Vec<String>| w@ == v@.push(t) implies #[trigger] w.deep_view()
        == v.deep_view().push(t@) by {
        assert(w.deep_view() =~= v.deep_view().push(t@));
    }
}

} // verus!

//! Locating literal markers in raw page text: a model of first-occurrence
//! substring search, and of the text that stands after one marker or
//! strictly between two of them.

use vstd::prelude::*;

verus! {

/// `pat` occurs in `s` at index `i`.
pub open spec fn contains_at(s: Seq<char>, i: int, pat: Seq<char>) -> bool {
    &&& 0 <= i
    &&& i + pat.len() <= s.len()
    &&& s.subrange(i, i + pat.len() as int) == pat
}

/// The index of the first occurrence of `pat` in `s`, if there is one.
/// An empty pattern occurs at index 0.
pub open spec fn find_pat(s: Seq<char>, pat: Seq<char>) -> Option<int>
    decreases s.len(),
    via find_pat_dec
{
    if s.len() < pat.len() {
        None
    } else if s.take(pat.len() as int) == pat {
        Some(0int)
    } else {
        match find_pat(s.skip(1), pat) {
            Some(i) => Some(i + 1),
            None => None,
        }
    }
}

#[via_fn]
proof fn find_pat_dec(s: Seq<char>, pat: Seq<char>) {
    if pat.len() == 0 {
        assert(s.take(0) =~= pat);
    }
}

/// The text after the first occurrence of `pat`, or empty when `pat` is
/// absent.
pub open spec fn after_first(s: Seq<char>, pat: Seq<char>) -> Seq<char> {
    match find_pat(s, pat) {
        Some(i) => s.subrange(i + pat.len() as int, s.len() as int),
        None => Seq::empty(),
    }
}

/// The text strictly between the first occurrence of `a` and the first
/// occurrence of `b` after it, when both are present.
pub open spec fn between_strict(s: Seq<char>, a: Seq<char>, b: Seq<char>) -> Option<Seq<char>> {
    match find_pat(s, a) {
        None => None,
        Some(i) => {
            let rest = s.subrange(i + a.len() as int, s.len() as int);
            match find_pat(rest, b) {
                None => None,
                Some(j) => Some(rest.take(j)),
            }
        },
    }
}

/// A found index marks a real occurrence.
pub proof fn lemma_find_pat_is_occurrence(s: Seq<char>, pat: Seq<char>)
    requires
        find_pat(s, pat) is Some,
    ensures
        contains_at(s, find_pat(s, pat)->Some_0, pat),
    decreases s.len(),
{
    if s.len() < pat.len() {
    } else if s.take(pat.len() as int) == pat {
        assert(s.subrange(0, pat.len() as int) =~= s.take(pat.len() as int));
    } else {
        if pat.len() == 0 {
            assert(s.take(0) =~= pat);
        }
        let sub = s.skip(1);
        lemma_find_pat_is_occurrence(sub, pat);
        let j = find_pat(sub, pat)->Some_0;
        assert(s.subrange(j + 1, j + 1 + pat.len()) =~= sub.subrange(j, j + pat.len() as int));
    }
}

/// Where an occurrence exists, the search finds one.
pub proof fn lemma_find_pat_finds(s: Seq<char>, pat: Seq<char>, k: int)
    requires
        contains_at(s, k, pat),
    ensures
        find_pat(s, pat) is Some,
    decreases s.len(),
{
    if s.take(pat.len() as int) == pat {
    } else {
        assert(k != 0) by {
            if k == 0 {
                assert(s.take(pat.len() as int) =~= s.subrange(0, pat.len() as int));
            }
        };
        assert(contains_at(s.skip(1), k - 1, pat)) by {
            assert(s.skip(1).subrange(k - 1, k - 1 + pat.len()) =~= s.subrange(
                k,
                k + pat.len() as int,
            ));
        };
        lemma_find_pat_finds(s.skip(1), pat, k - 1);
    }
}

/// Cutting the text after a found, nonempty pattern strictly shrinks it.
pub proof fn lemma_after_first_shrinks(s: Seq<char>, pat: Seq<char>)
    requires
        pat.len() > 0,
        find_pat(s, pat) is Some,
    ensures
        after_first(s, pat).len() < s.len(),
{
    lemma_find_pat_is_occurrence(s, pat);
}

/// A span captured between two markers occurs in the text, so cutting the
/// text after that span strictly shrinks it when the span is nonempty.
pub proof fn lemma_between_then_after(s: Seq<char>, a: Seq<char>, b: Seq<char>)
    requires
        between_strict(s, a, b) is Some,
        between_strict(s, a, b)->Some_0.len() > 0,
    ensures
        find_pat(s, between_strict(s, a, b)->Some_0) is Some,
        after_first(s, between_strict(s, a, b)->Some_0).len() < s.len(),
{
    let u = between_strict(s, a, b)->Some_0;
    let i = find_pat(s, a)->Some_0;
    lemma_find_pat_is_occurrence(s, a);
    let rest = s.subrange(i + a.len() as int, s.len() as int);
    let j = find_pat(rest, b)->Some_0;
    lemma_find_pat_is_occurrence(rest, b);
    assert(contains_at(s, i + a.len(), u)) by {
        assert(s.subrange(i + a.len(), i + a.len() + u.len()) =~= rest.take(j));
    };
    lemma_find_pat_finds(s, u, i + a.len() as int);
    lemma_after_first_shrinks(s, u);
}

/// Relies on string_tools::get_all_after: the text after the first
/// occurrence of `pat` (found by `str::find`), or the empty string when
/// `pat` is absent. Byte and character positions agree: a UTF-8 substring
/// match always falls on character boundaries.
#[verifier::external_body]
pub(crate) fn str_after<'a>(s: &'a str, pat: &str) -> (r: &'a str)
    ensures
        r@ == after_first(s@, pat@),
{
    string_tools::get_all_after(s, pat)
}

/// Relies on string_tools::get_all_between_strict: the text strictly between
/// the first occurrence of `a` and the first occurrence of `b` after it, or
/// None when either occurrence is missing. Byte and character positions
/// agree: a UTF-8 substring match always falls on character boundaries.
#[verifier::external_body]
pub(crate) fn str_between<'a>(s: &'a str, a: &str, b: &str) -> (r: Option<&'a str>)
    ensures
        (match r {
            Some(u) => between_strict(s@, a@, b@) == Some(u@),
            None => between_strict(s@, a@, b@) is None,
        }),
{
    string_tools::get_all_between_strict(s, a, b)
}

} // verus!

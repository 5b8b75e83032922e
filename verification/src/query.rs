//! The standalone matcher: classify one candidate against one query, or
//! against several alternative query terms at once.
//!
//! [`fuzzy_match`] differs from the compiled classifier in three documented
//! ways: the candidate has all its whitespace removed before any test runs,
//! the reserved `StartsWith` tier is live, and the camel-case strategies
//! accept a single-segment query and zero-length gaps.  [`fuzzy_query`]
//! classifies against each of several terms and keeps the single strongest
//! tier: a candidate matching one term well outranks one matching all terms
//! weakly.

use vstd::prelude::*;
use vstd::slice::slice_index_get;

use crate::matchers::{
    camel_segments, camel_segments_vec, chain_match, chain_matches, is_prefix, is_substring,
    is_substring_exec, occurs_at_exec, singleton_parts, singleton_parts_vec, views_of,
};
use crate::text::{chars_of, lower_seq, lower_vec, seq_eq, strip_ws, strip_ws_vec, upper_seq,
    upper_vec};
use crate::tier::{tier_rank, tier_value, FuzzyResult};

verus! {

/// The tier that [`fuzzy_match`] assigns to `s` under query `q`.  All tests
/// run on `s` with its whitespace removed; query characters are matched
/// literally, and case folding covers the ASCII letters.
pub open spec fn fuzzy_match_spec(q: Seq<char>, s: Seq<char>) -> FuzzyResult {
    let t = strip_ws(s);
    if lower_seq(t) == lower_seq(q) {
        FuzzyResult::ExactMatch
    } else if is_prefix(lower_seq(q), lower_seq(t)) {
        FuzzyResult::StartsWith
    } else if camel_segments(q).len() >= 1 && chain_matches(camel_segments(q), t, 0) {
        FuzzyResult::SmartCamel
    } else if chain_matches(singleton_parts(upper_seq(q)), t, 0) {
        FuzzyResult::UpperCamel
    } else if is_substring(lower_seq(q), lower_seq(t)) {
        FuzzyResult::Contains
    } else if chain_matches(singleton_parts(lower_seq(q)), lower_seq(t), 0) {
        FuzzyResult::Vague
    } else {
        FuzzyResult::NoMatch
    }
}

/// Classifies `input` against `query`, without compiling a reusable matcher.
pub fn fuzzy_match(query: &str, input: &str) -> (r: FuzzyResult)
    ensures
        r == fuzzy_match_spec(query@, input@),
{
    let q = chars_of(query);
    let raw = chars_of(input);
    let t = strip_ws_vec(&raw);
    let lq = lower_vec(&q);
    let lt = lower_vec(&t);
    if seq_eq(&lt, &lq) {
        return FuzzyResult::ExactMatch;
    }
    if occurs_at_exec(&lt, 0, &lq) {
        return FuzzyResult::StartsWith;
    }
    let segments = camel_segments_vec(&q);
    proof {
        assert(views_of(segments@).len() == segments@.len());
    }
    if segments.len() >= 1 && chain_match(&segments, &t, 0) {
        return FuzzyResult::SmartCamel;
    }
    let uq = upper_vec(&q);
    let upper_parts = singleton_parts_vec(&uq);
    if chain_match(&upper_parts, &t, 0) {
        return FuzzyResult::UpperCamel;
    }
    if is_substring_exec(&lq, &lt) {
        return FuzzyResult::Contains;
    }
    let lower_parts = singleton_parts_vec(&lq);
    if chain_match(&lower_parts, &lt, 0) {
        return FuzzyResult::Vague;
    }
    FuzzyResult::NoMatch
}

/// The views of a slice of string slices.
pub open spec fn term_views(ts: Seq<&str>) -> Seq<Seq<char>> {
    ts.map_values(|t: &str| t@)
}

/// The strongest tier over terms `i..`, starting from the accumulator
/// `acc`; an earlier term wins a tie.
pub open spec fn best_from(qs: Seq<Seq<char>>, s: Seq<char>, i: int, acc: FuzzyResult) -> FuzzyResult
    decreases qs.len() - i,
{
    if i < 0 || i >= qs.len() {
        acc
    } else {
        best_from(
            qs,
            s,
            i + 1,
            if tier_rank(fuzzy_match_spec(qs[i], s)) < tier_rank(acc) {
                fuzzy_match_spec(qs[i], s)
            } else {
                acc
            },
        )
    }
}

/// The strongest tier that any of the terms reaches on `s`; `NoMatch` when
/// there is no term.
pub open spec fn fuzzy_query_spec(qs: Seq<Seq<char>>, s: Seq<char>) -> FuzzyResult {
    best_from(qs, s, 0, FuzzyResult::NoMatch)
}

/// The result of [`best_from`] is the accumulator or one of the matches,
/// and is at least as strong as all of them.
pub proof fn lemma_best_from(qs: Seq<Seq<char>>, s: Seq<char>, i: int, acc: FuzzyResult)
    requires
        0 <= i <= qs.len(),
    ensures
        tier_rank(best_from(qs, s, i, acc)) <= tier_rank(acc),
        forall|j: int|
            i <= j < qs.len() ==> tier_rank(best_from(qs, s, i, acc)) <= tier_rank(
                #[trigger] fuzzy_match_spec(qs[j], s),
            ),
        best_from(qs, s, i, acc) == acc || exists|j: int|
            i <= j < qs.len() && best_from(qs, s, i, acc) == #[trigger] fuzzy_match_spec(qs[j], s),
    decreases qs.len() - i,
{
    if i < qs.len() {
        let next = if tier_rank(fuzzy_match_spec(qs[i], s)) < tier_rank(acc) {
            fuzzy_match_spec(qs[i], s)
        } else {
            acc
        };
        lemma_best_from(qs, s, i + 1, next);
    }
}

/// Classifies `input` against each term and returns the single strongest
/// tier; `NoMatch` when `terms` is empty.
pub fn fuzzy_query(terms: &[&str], input: &str) -> (r: FuzzyResult)
    ensures
        r == fuzzy_query_spec(term_views(terms@), input@),
{
    let ghost qs = term_views(terms@);
    let mut best = FuzzyResult::NoMatch;
    let mut best_rank = tier_value(best);
    let mut i: usize = 0;
    while i < terms.len()
        invariant
            i <= terms@.len(),
            qs == term_views(terms@),
            best_rank as int == tier_rank(best),
            fuzzy_query_spec(qs, input@) == best_from(qs, input@, i as int, best),
        decreases terms@.len() - i,
    {
        let term: &str = *slice_index_get(terms, i);
        let m = fuzzy_match(term, input);
        let mr = tier_value(m);
        proof {
            assert(qs[i as int] == terms@[i as int]@);
        }
        if mr < best_rank {
            best = m;
            best_rank = mr;
        }
        i = i + 1;
    }
    best
}

} // verus!

//! The query compiler and the classifier.
//!
//! A [`Finder`] is the compiled form of one query: the folded and uppercased
//! query text and its camel-case segments, derived once and reused for every
//! candidate.  [`Finder::is_match`] runs the strategies in strict priority
//! order, strongest first, and returns the first tier whose test succeeds.
//!
//! Query characters are matched literally throughout; there is no pattern
//! language, so every query compiles.  [`Finder::new`] keeps the `Result`
//! interface so that callers can treat compilation as fallible, but it
//! promises success on every query.

use vstd::prelude::*;

use crate::matchers::{
    camel_segments, camel_segments_vec, chain_match, chain_matches, is_subsequence,
    is_subsequence_exec, is_substring, is_substring_exec, views_of,
};
use crate::text::{
    chars_of, initials, initials_vec, lower_seq, lower_vec, seq_eq, strip_ws, strip_ws_vec,
    upper_seq, upper_vec,
};
use crate::tier::FuzzyResult;

verus! {

/// The tier that the priority cascade assigns to candidate `s` under query
/// `q`:
///
/// - `ExactMatch`: `s`, with its whitespace removed, equals `q` up to ASCII
///   case.
/// - `SmartCamel`: `q` splits into at least two capital-opened segments, and
///   the segments occur in `s` in order, each followed by at least one word
///   character, with only word characters between consecutive segments.
/// - `UpperCamel`: the characters of `q`, uppercased, appear in order among
///   the first characters of the whitespace-delimited words of `s`.
/// - `WordBreaks`: the same, but compared case-insensitively and with the
///   characters as typed.
/// - `Contains`: `q` occurs in `s` as a contiguous substring, up to ASCII
///   case.
/// - `Vague`: the characters of `q` occur in `s` in order, not necessarily
///   contiguously, up to ASCII case.
/// - `NoMatch`: none of the above.  `StartsWith` is never returned here.
pub open spec fn classify_spec(q: Seq<char>, s: Seq<char>) -> FuzzyResult {
    if lower_seq(strip_ws(s)) == lower_seq(q) {
        FuzzyResult::ExactMatch
    } else if camel_segments(q).len() >= 2 && chain_matches(camel_segments(q), s, 1) {
        FuzzyResult::SmartCamel
    } else if is_subsequence(upper_seq(q), initials(s)) {
        FuzzyResult::UpperCamel
    } else if is_subsequence(lower_seq(q), lower_seq(initials(s))) {
        FuzzyResult::WordBreaks
    } else if is_substring(lower_seq(q), lower_seq(s)) {
        FuzzyResult::Contains
    } else if is_subsequence(lower_seq(q), lower_seq(s)) {
        FuzzyResult::Vague
    } else {
        FuzzyResult::NoMatch
    }
}

/// Failure to compile a query.  Queries are matched literally, so every
/// query compiles; the type remains so that callers can keep treating
/// compilation as fallible.
#[derive(Debug, Copy, Clone, PartialEq, Eq, Structural)]
pub struct CompileError;

/// A compiled query: the immutable bundle that the classifier reuses for
/// every candidate tested against one query.
pub struct Finder {
    query: Vec<char>,
    query_lower: Vec<char>,
    query_upper: Vec<char>,
    segments: Vec<Vec<char>>,
    smart_enabled: bool,
}

impl View for Finder {
    type V = Seq<char>;

    /// A compiled query stands for its query text.
    closed spec fn view(&self) -> Seq<char> {
        self.query@
    }
}

impl Finder {
    /// The derived fields agree with the query they were compiled from.
    pub closed spec fn wf(&self) -> bool {
        &&& self.query_lower@ == lower_seq(self.query@)
        &&& self.query_upper@ == upper_seq(self.query@)
        &&& views_of(self.segments@) == camel_segments(self.query@)
        &&& self.smart_enabled == (camel_segments(self.query@).len() >= 2)
    }

    /// Compiles a query.  Succeeds on every query.
    pub fn new(query: &str) -> (r: Result<Finder, CompileError>)
        ensures
            r is Ok,
            r matches Ok(f) ==> f.wf() && f@ == query@,
    {
        let q = chars_of(query);
        let query_lower = lower_vec(&q);
        let query_upper = upper_vec(&q);
        let segments = camel_segments_vec(&q);
        let smart_enabled = segments.len() >= 2;
        proof {
            assert(views_of(segments@).len() == segments@.len());
        }
        Ok(
            Finder {
                query: q,
                query_lower,
                query_upper,
                segments,
                smart_enabled,
            },
        )
    }

    /// Classifies one candidate: the strongest tier whose test succeeds.
    pub fn is_match(&self, s: &str) -> (r: FuzzyResult)
        requires
            self.wf(),
        ensures
            r == classify_spec(self@, s@),
    {
        let sc = chars_of(s);
        let stripped = strip_ws_vec(&sc);
        let stripped_lower = lower_vec(&stripped);
        if seq_eq(&stripped_lower, &self.query_lower) {
            return FuzzyResult::ExactMatch;
        }
        if self.smart_enabled && chain_match(&self.segments, &sc, 1) {
            return FuzzyResult::SmartCamel;
        }
        let inits = initials_vec(&sc);
        if is_subsequence_exec(&self.query_upper, &inits) {
            return FuzzyResult::UpperCamel;
        }
        let inits_lower = lower_vec(&inits);
        if is_subsequence_exec(&self.query_lower, &inits_lower) {
            return FuzzyResult::WordBreaks;
        }
        let s_lower = lower_vec(&sc);
        if is_substring_exec(&self.query_lower, &s_lower) {
            return FuzzyResult::Contains;
        }
        if is_subsequence_exec(&self.query_lower, &s_lower) {
            return FuzzyResult::Vague;
        }
        FuzzyResult::NoMatch
    }
}

} // verus!

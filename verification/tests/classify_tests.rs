use winman::{Finder, FuzzyResult};

fn classify(query: &str, candidate: &str) -> FuzzyResult {
    Finder::new(query).unwrap().is_match(candidate)
}

#[test]
fn classify_exact_after_whitespace_removal() {
    assert_eq!(FuzzyResult::ExactMatch, classify("hello", "hello"));
    assert_eq!(FuzzyResult::ExactMatch, classify("hello", "Hello"));
    assert_eq!(FuzzyResult::ExactMatch, classify("ab", "a b"));
    assert_eq!(FuzzyResult::ExactMatch, classify("hello", "  hel lo  "));
}

#[test]
fn classify_contains() {
    assert_eq!(FuzzyResult::Contains, classify("hello", "why hello there"));
    // The substring test looks at the raw candidate, so an occurrence that
    // spans a space is only an ordered subsequence; fuzzy_match, which
    // strips whitespace first, sees a substring.
    assert_eq!(FuzzyResult::Vague, classify("other", "why hello there"));
    assert_eq!(FuzzyResult::Contains, winman::fuzzy_match("other", "why hello there"));
}

#[test]
fn classify_starts_with_is_dormant() {
    // A prefix occurrence is reported as Contains: the StartsWith tier is
    // reserved in the cascade.
    assert_eq!(FuzzyResult::Contains, classify("ins", "Insurance"));
    assert_eq!(FuzzyResult::StartsWith, winman::fuzzy_match("ins", "Insurance"));
}

#[test]
fn classify_smart_camel() {
    assert_eq!(FuzzyResult::SmartCamel, classify("SuCl", "SuperClass"));
    assert_eq!(FuzzyResult::SmartCamel, classify("SCl", "SuperClass"));
    assert_eq!(FuzzyResult::SmartCamel, classify("AbCd", "AbxCdy"));
}

#[test]
fn classify_smart_camel_needs_two_segments() {
    // A one-segment query never reaches SmartCamel here; it falls through
    // to the substring test.
    assert_eq!(FuzzyResult::Contains, classify("Cl", "SuperClass"));
    assert_eq!(FuzzyResult::SmartCamel, winman::fuzzy_match("Cl", "SuperClass"));
}

#[test]
fn classify_smart_camel_needs_trailing_word_character() {
    // Each segment must be followed by at least one word character, the
    // last one included.
    assert_eq!(FuzzyResult::Vague, classify("AbCd", "AbxCd"));
}

#[test]
fn classify_upper_camel_on_word_initials() {
    assert_eq!(FuzzyResult::UpperCamel, classify("mc", "My Class"));
    assert_eq!(FuzzyResult::UpperCamel, classify("mc", "x My y Class z"));
}

#[test]
fn classify_word_breaks_case_insensitive_initials() {
    assert_eq!(FuzzyResult::WordBreaks, classify("mc", "my class"));
    assert_eq!(FuzzyResult::WordBreaks, classify("MC", "my class"));
}

#[test]
fn classify_single_word_camel_falls_to_vague() {
    // A single camel-cased word has only one word initial, so the
    // word-initial strategies cannot fire and the ordered-subsequence test
    // decides.
    assert_eq!(FuzzyResult::Vague, classify("mc", "MyClass"));
    assert_eq!(FuzzyResult::Vague, classify("mc", "OtherMyClass"));
}

#[test]
fn classify_vague_subsequence() {
    assert_eq!(FuzzyResult::Vague, classify("ya", "MyClass"));
    // The compiled classifier accepts any ordered subsequence, word
    // characters or not between the matched characters.
    assert_eq!(FuzzyResult::Vague, classify("ya", "m.y.a"));
    assert_eq!(FuzzyResult::NoMatch, winman::fuzzy_match("ya", "m.y.a"));
}

#[test]
fn classify_no_match() {
    assert_eq!(FuzzyResult::NoMatch, classify("abc", "cde"));
}

#[test]
fn classify_empty_query_reaches_upper_camel() {
    // An empty query puts no demand on the word initials, so the cascade
    // stops at UpperCamel for a non-empty candidate.
    assert_eq!(FuzzyResult::UpperCamel, classify("", "x"));
    assert_eq!(FuzzyResult::ExactMatch, classify("", ""));
    assert_eq!(FuzzyResult::ExactMatch, classify("", "   "));
}

#[test]
fn compile_always_succeeds() {
    assert!(Finder::new("").is_ok());
    assert!(Finder::new("a(b[c").is_ok());
    assert!(Finder::new("hello world").is_ok());
}

#[test]
fn metacharacters_are_literal() {
    assert_eq!(FuzzyResult::ExactMatch, classify("a.c", "a.c"));
    assert_eq!(FuzzyResult::NoMatch, classify("a.c", "abc"));
    assert_eq!(FuzzyResult::Contains, classify("a.c", "xa.cx"));
}

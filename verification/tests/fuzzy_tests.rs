use winman::{fuzzy_match, fuzzy_query, FuzzyResult};

#[test]
fn exact_match() {
    assert_eq!(FuzzyResult::ExactMatch, fuzzy_match("", ""));
    assert_eq!(FuzzyResult::ExactMatch, fuzzy_match("hello", "hello"));
    assert_eq!(FuzzyResult::ExactMatch, fuzzy_match("hello", "Hello"));
}

#[test]
fn starts_with() {
    assert_eq!(FuzzyResult::StartsWith, fuzzy_match("hello", "hello there"));
    assert_eq!(FuzzyResult::StartsWith, fuzzy_match("ins", "Insurance"));
}

#[test]
fn contains() {
    assert_eq!(FuzzyResult::Contains, fuzzy_match("hello", "why hello there"));
    assert_eq!(FuzzyResult::Contains, fuzzy_match("other", "why hello there"));
}

#[test]
fn smart_camel() {
    assert_eq!(FuzzyResult::SmartCamel, fuzzy_match("SuCl", "SuperClass"));
    assert_eq!(FuzzyResult::SmartCamel, fuzzy_match("SCl", "SuperClass"));
    assert_eq!(FuzzyResult::SmartCamel, fuzzy_match("Cl", "SuperClass"));
}

#[test]
fn upper_camel() {
    assert_eq!(FuzzyResult::UpperCamel, fuzzy_match("mc", "MyClass"));
    assert_eq!(FuzzyResult::UpperCamel, fuzzy_match("mc", "MyOtherClass"));
    assert_eq!(FuzzyResult::UpperCamel, fuzzy_match("mc", "OtherMyClass"));
}

#[test]
fn vague() {
    assert_eq!(FuzzyResult::Vague, fuzzy_match("ya", "MyClass"));
    assert_eq!(FuzzyResult::Vague, fuzzy_match("mass", "MyOtherClass"));
    assert_eq!(FuzzyResult::Vague, fuzzy_match("sucla", "SuperClass"));
}

#[test]
fn none() {
    assert_eq!(FuzzyResult::NoMatch, fuzzy_match("abc", "cde"));
    assert_eq!(FuzzyResult::NoMatch, fuzzy_match("mc", "My"));
}

#[test]
fn query_exact_match() {
    assert_eq!(FuzzyResult::ExactMatch, fuzzy_query(&["hello"], "hello"));
    assert_eq!(FuzzyResult::ExactMatch, fuzzy_query(&["hello", "world"], "hello"));
    assert_eq!(FuzzyResult::ExactMatch, fuzzy_query(&["world", "hello"], "hello"));
    assert_eq!(FuzzyResult::ExactMatch, fuzzy_query(&["MyClass", "MC"], "MyClass"));
    assert_eq!(FuzzyResult::ExactMatch, fuzzy_query(&["MC", "MyClass"], "MyClass"));
}

#[test]
fn partialord() {
    assert!(FuzzyResult::ExactMatch < FuzzyResult::StartsWith);
    assert!(FuzzyResult::ExactMatch <= FuzzyResult::StartsWith);
    assert!(FuzzyResult::StartsWith > FuzzyResult::ExactMatch);
    assert!(FuzzyResult::StartsWith >= FuzzyResult::ExactMatch);
}

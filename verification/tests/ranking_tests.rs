use winman::{rank, rank_any_term, Finder, FuzzyResult};

fn candidates(texts: &[&str]) -> Vec<(u64, String)> {
    texts.iter().enumerate().map(|(i, t)| (i as u64 + 1, t.to_string())).collect()
}

#[test]
fn rank_keeps_matches_ahead_and_drops_nonmatches() {
    let finder = Finder::new("ins").unwrap();
    let cands = candidates(&["Insurance", "Other", "InsuranceData"]);
    let ranked = rank(&finder, &cands);
    assert_eq!(
        ranked,
        vec![(1, FuzzyResult::Contains), (3, FuzzyResult::Contains)],
    );
}

#[test]
fn rank_orders_strongest_first() {
    let finder = Finder::new("mc").unwrap();
    let cands = candidates(&["MyClass", "mc", "my class", "My Class", "zzz"]);
    let ranked = rank(&finder, &cands);
    assert_eq!(
        ranked,
        vec![
            (2, FuzzyResult::ExactMatch),
            (4, FuzzyResult::UpperCamel),
            (3, FuzzyResult::WordBreaks),
            (1, FuzzyResult::Vague),
        ],
    );
}

#[test]
fn rank_is_stable_within_a_tier() {
    let finder = Finder::new("ins").unwrap();
    let cands = candidates(&["Insurance", "InsuranceData", "DataInsurance"]);
    let ranked = rank(&finder, &cands);
    assert_eq!(
        ranked,
        vec![
            (1, FuzzyResult::Contains),
            (2, FuzzyResult::Contains),
            (3, FuzzyResult::Contains),
        ],
    );
}

#[test]
fn rank_of_empty_candidate_list_is_empty() {
    let finder = Finder::new("ins").unwrap();
    let ranked = rank(&finder, &Vec::new());
    assert!(ranked.is_empty());
}

#[test]
fn ranking_twice_gives_identical_results() {
    let cands = candidates(&["Insurance", "Other", "InsuranceData", "in s"]);
    let first = rank(&Finder::new("ins").unwrap(), &cands);
    let second = rank(&Finder::new("ins").unwrap(), &cands);
    assert_eq!(first, second);
}

#[test]
fn classification_is_repeatable() {
    let finder = Finder::new("SuCl").unwrap();
    let a = finder.is_match("SuperClass");
    let b = finder.is_match("SuperClass");
    assert_eq!(a, b);
    assert_eq!(FuzzyResult::SmartCamel, a);
}

#[test]
fn rank_any_term_takes_the_strongest_tier() {
    let cands = candidates(&["hello", "why hello there", "cde"]);
    let ranked = rank_any_term(&["hello", "there"], &cands);
    assert_eq!(
        ranked,
        vec![(1, FuzzyResult::ExactMatch), (2, FuzzyResult::Contains)],
    );
}

#[test]
fn rank_any_term_without_terms_matches_nothing() {
    let cands = candidates(&["hello"]);
    let ranked = rank_any_term(&[], &cands);
    assert!(ranked.is_empty());
}

#[test]
fn fuzzy_query_without_terms_is_no_match() {
    assert_eq!(FuzzyResult::NoMatch, winman::fuzzy_query(&[], "anything"));
}

#[test]
fn fuzzy_query_prefers_the_earlier_of_tied_terms() {
    assert_eq!(
        FuzzyResult::Contains,
        winman::fuzzy_query(&["hello", "there"], "why hello there"),
    );
}

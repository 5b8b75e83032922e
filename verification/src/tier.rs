//! The discrete, totally ordered match-quality tiers.
//!
//! The declaration order is the priority order, strongest first; it is the
//! sole basis for ranking.  `StartsWith` is a reserved tier: the canonical
//! classifier never returns it (a full-span match is `ExactMatch` and any
//! other occurrence is `Contains`), but the standalone [`crate::fuzzy_match`]
//! does, and the ordering keeps a place for it.

use vstd::prelude::*;

verus! {

/// Match quality, strongest first.
#[derive(Debug, Copy, Clone, PartialEq, Eq, Structural, PartialOrd, Ord, Hash)]
pub enum FuzzyResult {
    ExactMatch,
    StartsWith,
    SmartCamel,
    UpperCamel,
    WordBreaks,
    Contains,
    Vague,
    NoMatch,
}

/// The position of a tier in the priority order: 0 is strongest.
pub open spec fn tier_rank(t: FuzzyResult) -> int {
    match t {
        FuzzyResult::ExactMatch => 0,
        FuzzyResult::StartsWith => 1,
        FuzzyResult::SmartCamel => 2,
        FuzzyResult::UpperCamel => 3,
        FuzzyResult::WordBreaks => 4,
        FuzzyResult::Contains => 5,
        FuzzyResult::Vague => 6,
        FuzzyResult::NoMatch => 7,
    }
}

/// Exec counterpart of [`tier_rank`].
pub fn tier_value(t: FuzzyResult) -> (r: u8)
    ensures
        r as int == tier_rank(t),
{
    match t {
        FuzzyResult::ExactMatch => 0,
        FuzzyResult::StartsWith => 1,
        FuzzyResult::SmartCamel => 2,
        FuzzyResult::UpperCamel => 3,
        FuzzyResult::WordBreaks => 4,
        FuzzyResult::Contains => 5,
        FuzzyResult::Vague => 6,
        FuzzyResult::NoMatch => 7,
    }
}

} // verus!

//! Proved properties of the engine: determinism of classification, the
//! exact-match characterization, idempotence of ranking, and the ranker's
//! ordering guarantees (sorted best-first, non-matches excluded, input order
//! kept within a tier).

use vstd::prelude::*;

use crate::finder::classify_spec;
use crate::ranking::{arrange_spec, classified, keep, rank_spec};
use crate::text::{lower_seq, strip_ws};
use crate::tier::{tier_rank, FuzzyResult};

verus! {

/// Classification is a pure function of the query and the candidate:
/// repeated classifications of the same candidate under the same query
/// return the same tier.
pub proof fn lemma_classify_deterministic(
    q: Seq<char>,
    s: Seq<char>,
    r1: FuzzyResult,
    r2: FuzzyResult,
)
    requires
        r1 == classify_spec(q, s),
        r2 == classify_spec(q, s),
    ensures
        r1 == r2,
{
}

/// The classifier returns `ExactMatch` exactly when the candidate, with its
/// whitespace removed, equals the query up to ASCII case.
pub proof fn lemma_exact_match_iff(q: Seq<char>, s: Seq<char>)
    ensures
        (classify_spec(q, s) == FuzzyResult::ExactMatch) <==> (lower_seq(strip_ws(s)) == lower_seq(
            q,
        )),
{
}

/// Ranking is idempotent: the same query and the same candidate list give
/// the same ordered result, however often they are ranked.
pub proof fn lemma_rank_idempotent(
    q: Seq<char>,
    cs: Seq<(u64, Seq<char>)>,
    r1: Seq<(u64, FuzzyResult)>,
    r2: Seq<(u64, FuzzyResult)>,
)
    requires
        r1 == rank_spec(q, cs),
        r2 == rank_spec(q, cs),
    ensures
        r1 == r2,
{
}

/// Every entry kept for tier `t` carries tier `t`.
pub proof fn lemma_keep_tier(s: Seq<(u64, FuzzyResult)>, t: FuzzyResult)
    ensures
        forall|i: int| 0 <= i < keep(s, t).len() ==> (#[trigger] keep(s, t)[i]).1 == t,
    decreases s.len(),
{
    if s.len() > 0 {
        lemma_keep_tier(s.drop_first(), t);
    }
}

/// The entries of ranked output, sorted ascending by tier rank: strongest
/// first.
pub open spec fn sorted_by_tier(s: Seq<(u64, FuzzyResult)>) -> bool {
    forall|i: int, j: int|
        0 <= i <= j < s.len() ==> tier_rank(#[trigger] s[i].1) <= tier_rank(#[trigger] s[j].1)
}

/// All entries of `s` have tier rank at most `bound`.
pub open spec fn ranks_at_most(s: Seq<(u64, FuzzyResult)>, bound: int) -> bool {
    forall|i: int| 0 <= i < s.len() ==> tier_rank((#[trigger] s[i]).1) <= bound
}

/// Concatenating a sorted block of ranks at most `bound` with a sorted block
/// of ranks at least `bound` is sorted.
proof fn lemma_sorted_concat(a: Seq<(u64, FuzzyResult)>, b: Seq<(u64, FuzzyResult)>, bound: int)
    requires
        sorted_by_tier(a),
        sorted_by_tier(b),
        ranks_at_most(a, bound),
        forall|j: int| 0 <= j < b.len() ==> bound <= tier_rank((#[trigger] b[j]).1),
    ensures
        sorted_by_tier(a + b),
{
    assert forall|i: int, j: int| 0 <= i <= j < (a + b).len() implies tier_rank(
        #[trigger] (a + b)[i].1,
    ) <= tier_rank(#[trigger] (a + b)[j].1) by {
        if i < a.len() {
            assert((a + b)[i] == a[i]);
        } else {
            assert((a + b)[i] == b[i - a.len()]);
        }
        if j < a.len() {
            assert((a + b)[j] == a[j]);
        } else {
            assert((a + b)[j] == b[j - a.len()]);
        }
    }
}

/// A block whose entries all carry one tier is sorted and rank-bounded by
/// that tier's rank.
proof fn lemma_uniform_block(s: Seq<(u64, FuzzyResult)>, t: FuzzyResult)
    ensures
        sorted_by_tier(keep(s, t)),
        ranks_at_most(keep(s, t), tier_rank(t)),
        forall|j: int|
            0 <= j < keep(s, t).len() ==> tier_rank(t) <= tier_rank(
                (#[trigger] keep(s, t)[j]).1,
            ),
{
    lemma_keep_tier(s, t);
}

/// Ranked output is ordered best-first: tier ranks never decrease along it.
pub proof fn lemma_rank_sorted(q: Seq<char>, cs: Seq<(u64, Seq<char>)>)
    ensures
        sorted_by_tier(rank_spec(q, cs)),
{
    let s = classified(q, cs);
    let k0 = keep(s, FuzzyResult::ExactMatch);
    let k1 = keep(s, FuzzyResult::StartsWith);
    let k2 = keep(s, FuzzyResult::SmartCamel);
    let k3 = keep(s, FuzzyResult::UpperCamel);
    let k4 = keep(s, FuzzyResult::WordBreaks);
    let k5 = keep(s, FuzzyResult::Contains);
    let k6 = keep(s, FuzzyResult::Vague);
    lemma_uniform_block(s, FuzzyResult::ExactMatch);
    lemma_uniform_block(s, FuzzyResult::StartsWith);
    lemma_uniform_block(s, FuzzyResult::SmartCamel);
    lemma_uniform_block(s, FuzzyResult::UpperCamel);
    lemma_uniform_block(s, FuzzyResult::WordBreaks);
    lemma_uniform_block(s, FuzzyResult::Contains);
    lemma_uniform_block(s, FuzzyResult::Vague);
    lemma_sorted_concat(k0, k1, 1);
    assert(ranks_at_most(k0 + k1, 1));
    lemma_sorted_concat(k0 + k1, k2, 2);
    assert(ranks_at_most(k0 + k1 + k2, 2));
    lemma_sorted_concat(k0 + k1 + k2, k3, 3);
    assert(ranks_at_most(k0 + k1 + k2 + k3, 3));
    lemma_sorted_concat(k0 + k1 + k2 + k3, k4, 4);
    assert(ranks_at_most(k0 + k1 + k2 + k3 + k4, 4));
    lemma_sorted_concat(k0 + k1 + k2 + k3 + k4, k5, 5);
    assert(ranks_at_most(k0 + k1 + k2 + k3 + k4 + k5, 5));
    lemma_sorted_concat(k0 + k1 + k2 + k3 + k4 + k5, k6, 6);
    assert(rank_spec(q, cs) == k0 + k1 + k2 + k3 + k4 + k5 + k6);
}

/// No entry of ranked output carries `NoMatch`: non-matching candidates are
/// excluded.
pub proof fn lemma_rank_excludes_nomatch(q: Seq<char>, cs: Seq<(u64, Seq<char>)>)
    ensures
        forall|i: int|
            0 <= i < rank_spec(q, cs).len() ==> (#[trigger] rank_spec(q, cs)[i]).1
                != FuzzyResult::NoMatch,
{
    let s = classified(q, cs);
    lemma_uniform_block(s, FuzzyResult::ExactMatch);
    lemma_uniform_block(s, FuzzyResult::StartsWith);
    lemma_uniform_block(s, FuzzyResult::SmartCamel);
    lemma_uniform_block(s, FuzzyResult::UpperCamel);
    lemma_uniform_block(s, FuzzyResult::WordBreaks);
    lemma_uniform_block(s, FuzzyResult::Contains);
    lemma_uniform_block(s, FuzzyResult::Vague);
    assert forall|i: int| 0 <= i < rank_spec(q, cs).len() implies (#[trigger] rank_spec(
        q,
        cs,
    )[i]).1 != FuzzyResult::NoMatch by {
        assert(tier_rank(rank_spec(q, cs)[i].1) <= 6) by {
            lemma_rank_ranks_bounded(q, cs, i);
        }
    }
}

/// Every entry of ranked output sits in one of the seven match tiers.
proof fn lemma_rank_ranks_bounded(q: Seq<char>, cs: Seq<(u64, Seq<char>)>, i: int)
    requires
        0 <= i < rank_spec(q, cs).len(),
    ensures
        tier_rank(rank_spec(q, cs)[i].1) <= 6,
{
    let s = classified(q, cs);
    lemma_uniform_block(s, FuzzyResult::ExactMatch);
    lemma_uniform_block(s, FuzzyResult::StartsWith);
    lemma_uniform_block(s, FuzzyResult::SmartCamel);
    lemma_uniform_block(s, FuzzyResult::UpperCamel);
    lemma_uniform_block(s, FuzzyResult::WordBreaks);
    lemma_uniform_block(s, FuzzyResult::Contains);
    lemma_uniform_block(s, FuzzyResult::Vague);
    let k0 = keep(s, FuzzyResult::ExactMatch);
    let k1 = keep(s, FuzzyResult::StartsWith);
    let k2 = keep(s, FuzzyResult::SmartCamel);
    let k3 = keep(s, FuzzyResult::UpperCamel);
    let k4 = keep(s, FuzzyResult::WordBreaks);
    let k5 = keep(s, FuzzyResult::Contains);
    let k6 = keep(s, FuzzyResult::Vague);
    assert(rank_spec(q, cs) == k0 + k1 + k2 + k3 + k4 + k5 + k6);
}

/// [`keep`] distributes over concatenation.
proof fn lemma_keep_concat(a: Seq<(u64, FuzzyResult)>, b: Seq<(u64, FuzzyResult)>, t: FuzzyResult)
    ensures
        keep(a + b, t) == keep(a, t) + keep(b, t),
    decreases a.len(),
{
    if a.len() == 0 {
        assert(a + b =~= b);
        assert(keep(a, t) + keep(b, t) =~= keep(b, t));
    } else {
        assert((a + b).len() > 0);
        assert((a + b)[0] == a[0]);
        assert((a + b).drop_first() =~= a.drop_first() + b);
        lemma_keep_concat(a.drop_first(), b, t);
        if a[0].1 == t {
            assert(seq![a[0]] + (keep(a.drop_first(), t) + keep(b, t)) =~= (seq![a[0]] + keep(
                a.drop_first(),
                t,
            )) + keep(b, t));
        }
    }
}

/// Filtering a block that already holds only tier `t` changes nothing.
proof fn lemma_keep_of_keep_same(s: Seq<(u64, FuzzyResult)>, t: FuzzyResult)
    ensures
        keep(keep(s, t), t) == keep(s, t),
    decreases s.len(),
{
    if s.len() > 0 {
        lemma_keep_of_keep_same(s.drop_first(), t);
        if s[0].1 == t {
            let rest = keep(s.drop_first(), t);
            assert((seq![s[0]] + rest).len() > 0);
            assert((seq![s[0]] + rest)[0] == s[0]);
            assert((seq![s[0]] + rest).drop_first() =~= rest);
        }
    }
}

/// Filtering a block that holds only tier `u` for a different tier `t`
/// leaves nothing.
proof fn lemma_keep_of_keep_diff(s: Seq<(u64, FuzzyResult)>, u: FuzzyResult, t: FuzzyResult)
    requires
        u != t,
    ensures
        keep(keep(s, u), t) == Seq::<(u64, FuzzyResult)>::empty(),
    decreases s.len(),
{
    if s.len() > 0 {
        lemma_keep_of_keep_diff(s.drop_first(), u, t);
        if s[0].1 == u {
            let rest = keep(s.drop_first(), u);
            assert((seq![s[0]] + rest).len() > 0);
            assert((seq![s[0]] + rest)[0] == s[0]);
            assert((seq![s[0]] + rest).drop_first() =~= rest);
        }
    }
}

/// Stability: for every match tier, the ranked output lists exactly the
/// candidates classified at that tier, in their original relative order.
pub proof fn lemma_rank_stable(q: Seq<char>, cs: Seq<(u64, Seq<char>)>, t: FuzzyResult)
    requires
        t != FuzzyResult::NoMatch,
    ensures
        keep(rank_spec(q, cs), t) == keep(classified(q, cs), t),
{
    let s = classified(q, cs);
    let k0 = keep(s, FuzzyResult::ExactMatch);
    let k1 = keep(s, FuzzyResult::StartsWith);
    let k2 = keep(s, FuzzyResult::SmartCamel);
    let k3 = keep(s, FuzzyResult::UpperCamel);
    let k4 = keep(s, FuzzyResult::WordBreaks);
    let k5 = keep(s, FuzzyResult::Contains);
    let k6 = keep(s, FuzzyResult::Vague);
    lemma_keep_concat(k0, k1, t);
    lemma_keep_concat(k0 + k1, k2, t);
    lemma_keep_concat(k0 + k1 + k2, k3, t);
    lemma_keep_concat(k0 + k1 + k2 + k3, k4, t);
    lemma_keep_concat(k0 + k1 + k2 + k3 + k4, k5, t);
    lemma_keep_concat(k0 + k1 + k2 + k3 + k4 + k5, k6, t);
    if t == FuzzyResult::ExactMatch {
        lemma_keep_of_keep_same(s, t);
    } else {
        lemma_keep_of_keep_diff(s, FuzzyResult::ExactMatch, t);
    }
    if t == FuzzyResult::StartsWith {
        lemma_keep_of_keep_same(s, t);
    } else {
        lemma_keep_of_keep_diff(s, FuzzyResult::StartsWith, t);
    }
    if t == FuzzyResult::SmartCamel {
        lemma_keep_of_keep_same(s, t);
    } else {
        lemma_keep_of_keep_diff(s, FuzzyResult::SmartCamel, t);
    }
    if t == FuzzyResult::UpperCamel {
        lemma_keep_of_keep_same(s, t);
    } else {
        lemma_keep_of_keep_diff(s, FuzzyResult::UpperCamel, t);
    }
    if t == FuzzyResult::WordBreaks {
        lemma_keep_of_keep_same(s, t);
    } else {
        lemma_keep_of_keep_diff(s, FuzzyResult::WordBreaks, t);
    }
    if t == FuzzyResult::Contains {
        lemma_keep_of_keep_same(s, t);
    } else {
        lemma_keep_of_keep_diff(s, FuzzyResult::Contains, t);
    }
    if t == FuzzyResult::Vague {
        lemma_keep_of_keep_same(s, t);
    } else {
        lemma_keep_of_keep_diff(s, FuzzyResult::Vague, t);
    }
    assert(keep(rank_spec(q, cs), t) =~= keep(s, t));
}

} // verus!

//! The ranker: classify every candidate, drop the non-matches, and order
//! the rest best-first, preserving input order within a tier.
//!
//! The output is pinned exactly: it is the concatenation, tier by tier in
//! priority order, of the candidates that reached that tier, each in its
//! original position relative to the others of its tier.  That concatenation
//! is what a stable sort by tier produces.

use vstd::prelude::*;

use crate::finder::{classify_spec, Finder};
use crate::query::{fuzzy_query, fuzzy_query_spec, term_views};
use crate::tier::FuzzyResult;

verus! {

/// Candidate ids paired with the tier each candidate text reaches under
/// query `q`.
pub open spec fn classified(q: Seq<char>, cs: Seq<(u64, Seq<char>)>) -> Seq<(u64, FuzzyResult)> {
    cs.map_values(|c: (u64, Seq<char>)| (c.0, classify_spec(q, c.1)))
}

/// Candidate ids paired with the strongest tier over several query terms.
pub open spec fn multi_classified(qs: Seq<Seq<char>>, cs: Seq<(u64, Seq<char>)>) -> Seq<
    (u64, FuzzyResult),
> {
    cs.map_values(|c: (u64, Seq<char>)| (c.0, fuzzy_query_spec(qs, c.1)))
}

/// The entries of `s` whose tier is `t`, in their original order.
pub open spec fn keep(s: Seq<(u64, FuzzyResult)>, t: FuzzyResult) -> Seq<(u64, FuzzyResult)>
    decreases s.len(),
{
    if s.len() == 0 {
        Seq::empty()
    } else if s[0].1 == t {
        seq![s[0]] + keep(s.drop_first(), t)
    } else {
        keep(s.drop_first(), t)
    }
}

/// Tagged entries arranged best-first: the tiers in priority order, entries
/// of equal tier in their original relative order, and `NoMatch` entries
/// absent.
pub open spec fn arrange_spec(s: Seq<(u64, FuzzyResult)>) -> Seq<(u64, FuzzyResult)> {
    keep(s, FuzzyResult::ExactMatch) + keep(s, FuzzyResult::StartsWith) + keep(
        s,
        FuzzyResult::SmartCamel,
    ) + keep(s, FuzzyResult::UpperCamel) + keep(s, FuzzyResult::WordBreaks) + keep(
        s,
        FuzzyResult::Contains,
    ) + keep(s, FuzzyResult::Vague)
}

/// The views of a candidate list.
pub open spec fn cand_views(cs: Seq<(u64, String)>) -> Seq<(u64, Seq<char>)> {
    cs.map_values(|c: (u64, String)| (c.0, c.1@))
}

/// What [`rank`] returns for query `q` and candidate texts `cs`.
pub open spec fn rank_spec(q: Seq<char>, cs: Seq<(u64, Seq<char>)>) -> Seq<(u64, FuzzyResult)> {
    arrange_spec(classified(q, cs))
}

/// What [`rank_any_term`] returns for query terms `qs` and candidates `cs`.
pub open spec fn rank_any_spec(qs: Seq<Seq<char>>, cs: Seq<(u64, Seq<char>)>) -> Seq<
    (u64, FuzzyResult),
> {
    arrange_spec(multi_classified(qs, cs))
}

/// Unfolding step for [`keep`] over a growing prefix.
proof fn lemma_keep_step(s: Seq<(u64, FuzzyResult)>, i: int, t: FuzzyResult)
    requires
        0 <= i < s.len(),
    ensures
        keep(s.skip(i), t) == if s[i].1 == t {
            seq![s[i]] + keep(s.skip(i + 1), t)
        } else {
            keep(s.skip(i + 1), t)
        },
{
    assert(s.skip(i).len() > 0);
    assert(s.skip(i)[0] == s[i]);
    assert(s.skip(i).drop_first() =~= s.skip(i + 1));
}

/// Appends the entries of `tagged` whose tier is `t`, in order.
fn push_tier(out: &mut Vec<(u64, FuzzyResult)>, tagged: &Vec<(u64, FuzzyResult)>, t: FuzzyResult)
    ensures
        final(out)@ == old(out)@ + keep(tagged@, t),
{
    let ghost base = out@;
    let mut i: usize = 0;
    proof {
        assert(tagged@.skip(0) =~= tagged@);
    }
    while i < tagged.len()
        invariant
            i <= tagged@.len(),
            base + keep(tagged@, t) == out@ + keep(tagged@.skip(i as int), t),
        decreases tagged@.len() - i,
    {
        proof {
            lemma_keep_step(tagged@, i as int, t);
        }
        let entry = tagged[i];
        if entry.1 == t {
            out.push(entry);
            proof {
                assert(base + keep(tagged@, t) =~= out@ + keep(tagged@.skip(i + 1), t));
            }
        }
        i = i + 1;
    }
    proof {
        assert(tagged@.skip(tagged@.len() as int) =~= Seq::<(u64, FuzzyResult)>::empty());
        assert(out@ =~= base + keep(tagged@, t));
    }
}

/// Arranges tagged entries best-first, as [`arrange_spec`] says.
fn arrange(tagged: &Vec<(u64, FuzzyResult)>) -> (r: Vec<(u64, FuzzyResult)>)
    ensures
        r@ == arrange_spec(tagged@),
{
    let mut out: Vec<(u64, FuzzyResult)> = Vec::new();
    push_tier(&mut out, tagged, FuzzyResult::ExactMatch);
    push_tier(&mut out, tagged, FuzzyResult::StartsWith);
    push_tier(&mut out, tagged, FuzzyResult::SmartCamel);
    push_tier(&mut out, tagged, FuzzyResult::UpperCamel);
    push_tier(&mut out, tagged, FuzzyResult::WordBreaks);
    push_tier(&mut out, tagged, FuzzyResult::Contains);
    push_tier(&mut out, tagged, FuzzyResult::Vague);
    proof {
        assert(out@ =~= arrange_spec(tagged@));
    }
    out
}

/// Ranks the candidates under one compiled query: non-matches are dropped,
/// the rest come back strongest tier first, input order kept within a tier.
pub fn rank(finder: &Finder, candidates: &Vec<(u64, String)>) -> (r: Vec<(u64, FuzzyResult)>)
    requires
        finder.wf(),
    ensures
        r@ == rank_spec(finder@, cand_views(candidates@)),
{
    let ghost cs = cand_views(candidates@);
    let mut tagged: Vec<(u64, FuzzyResult)> = Vec::new();
    let mut i: usize = 0;
    proof {
        assert(tagged@ =~= classified(finder@, cs.take(0)));
    }
    while i < candidates.len()
        invariant
            finder.wf(),
            cs == cand_views(candidates@),
            i <= candidates@.len(),
            tagged@ == classified(finder@, cs.take(i as int)),
        decreases candidates@.len() - i,
    {
        let c = &candidates[i];
        let m = finder.is_match(c.1.as_str());
        tagged.push((c.0, m));
        i = i + 1;
        proof {
            assert(cs[i - 1] == (candidates@[i - 1].0, candidates@[i - 1].1@));
            assert(tagged@ =~= classified(finder@, cs.take(i as int)));
        }
    }
    proof {
        assert(cs.take(cs.len() as int) =~= cs);
    }
    arrange(&tagged)
}

/// Ranks the candidates against several alternative query terms at once:
/// each candidate counts under the strongest tier that any single term
/// reaches on it.
pub fn rank_any_term(terms: &[&str], candidates: &Vec<(u64, String)>) -> (r: Vec<
    (u64, FuzzyResult),
>)
    ensures
        r@ == rank_any_spec(term_views(terms@), cand_views(candidates@)),
{
    let ghost qs = term_views(terms@);
    let ghost cs = cand_views(candidates@);
    let mut tagged: Vec<(u64, FuzzyResult)> = Vec::new();
    let mut i: usize = 0;
    proof {
        assert(tagged@ =~= multi_classified(qs, cs.take(0)));
    }
    while i < candidates.len()
        invariant
            qs == term_views(terms@),
            cs == cand_views(candidates@),
            i <= candidates@.len(),
            tagged@ == multi_classified(qs, cs.take(i as int)),
        decreases candidates@.len() - i,
    {
        let c = &candidates[i];
        let m = fuzzy_query(terms, c.1.as_str());
        tagged.push((c.0, m));
        i = i + 1;
        proof {
            assert(cs[i - 1] == (candidates@[i - 1].0, candidates@[i - 1].1@));
            assert(tagged@ =~= multi_classified(qs, cs.take(i as int)));
        }
    }
    proof {
        assert(cs.take(cs.len() as int) =~= cs);
    }
    arrange(&tagged)
}

} // verus!

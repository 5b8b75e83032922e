//! The primitive pattern tests that the matching strategies are built from.
//!
//! Four primitives cover all seven strategies: literal occurrence at a
//! position, substring search, ordered (not necessarily contiguous)
//! subsequence, and the "chain" test that places a list of literal parts in
//! order, each pair separated by a run of word characters.  The chain test is
//! what camel-case matching means here: `Su..Cl` is found in `SuperClass`
//! because `Su` and `Cl` occur in order with only word characters between
//! them.

use vstd::prelude::*;

use crate::text::{is_upper, is_upper_char, is_word, is_word_char};

verus! {

/// `needle` occurs literally in `hay` at position `pos`.
pub open spec fn occurs_at(hay: Seq<char>, pos: int, needle: Seq<char>) -> bool {
    &&& 0 <= pos
    &&& pos + needle.len() <= hay.len()
    &&& hay.subrange(pos, pos + needle.len() as int) == needle
}

/// `needle` occurs literally somewhere in `hay`.
pub open spec fn is_substring(needle: Seq<char>, hay: Seq<char>) -> bool {
    exists|pos: int| occurs_at(hay, pos, needle)
}

/// `needle` is a prefix of `hay`.
pub open spec fn is_prefix(needle: Seq<char>, hay: Seq<char>) -> bool {
    occurs_at(hay, 0, needle)
}

/// The characters of `needle` occur in `hay`, in order, not necessarily
/// contiguously.  Written as the standard two-pointer recursion: a common
/// first character must be consumed from both sides, which accepts exactly
/// the ordered subsequences.
pub open spec fn is_subsequence(needle: Seq<char>, hay: Seq<char>) -> bool
    decreases hay.len(),
{
    if needle.len() == 0 {
        true
    } else if hay.len() == 0 {
        false
    } else if hay[0] == needle[0] {
        is_subsequence(needle.drop_first(), hay.drop_first())
    } else {
        is_subsequence(needle, hay.drop_first())
    }
}

/// `picks` names, strictly in order, a position of `hay` for each character
/// of `needle`, carrying that character.
pub open spec fn is_selection(picks: Seq<int>, needle: Seq<char>, hay: Seq<char>) -> bool {
    &&& picks.len() == needle.len()
    &&& (forall|i: int|
        0 <= i < picks.len() ==> 0 <= #[trigger] picks[i] < hay.len() && hay[picks[i]]
            == needle[i])
    &&& (forall|i: int| 0 < i < picks.len() ==> picks[i - 1] < #[trigger] picks[i])
}

proof fn lemma_subseq_to_selection(n: Seq<char>, h: Seq<char>)
    requires
        is_subsequence(n, h),
    ensures
        exists|picks: Seq<int>| is_selection(picks, n, h),
    decreases h.len(),
{
    if n.len() == 0 {
        assert(is_selection(Seq::<int>::empty(), n, h));
    } else if h[0] == n[0] {
        lemma_subseq_to_selection(n.drop_first(), h.drop_first());
        let tail_picks = choose|p: Seq<int>| is_selection(p, n.drop_first(), h.drop_first());
        let picks = seq![0int] + tail_picks.map_values(|x: int| x + 1);
        assert forall|i: int| 0 <= i < picks.len() implies 0 <= #[trigger] picks[i] < h.len()
            && h[picks[i]] == n[i] by {
            if i > 0 {
                assert(picks[i] == tail_picks[i - 1] + 1);
                assert(h.drop_first()[tail_picks[i - 1]] == n.drop_first()[i - 1]);
            }
        }
        assert forall|i: int| 0 < i < picks.len() implies picks[i - 1] < #[trigger] picks[i] by {
            if i > 1 {
                assert(tail_picks[i - 2] < tail_picks[i - 1]);
            }
        }
        assert(is_selection(picks, n, h));
    } else {
        lemma_subseq_to_selection(n, h.drop_first());
        let tail_picks = choose|p: Seq<int>| is_selection(p, n, h.drop_first());
        let picks = tail_picks.map_values(|x: int| x + 1);
        assert forall|i: int| 0 <= i < picks.len() implies 0 <= #[trigger] picks[i] < h.len()
            && h[picks[i]] == n[i] by {
            assert(h.drop_first()[tail_picks[i]] == n[i]);
        }
        assert forall|i: int| 0 < i < picks.len() implies picks[i - 1] < #[trigger] picks[i] by {
            assert(tail_picks[i - 1] < tail_picks[i]);
        }
        assert(is_selection(picks, n, h));
    }
}

proof fn lemma_selection_to_subseq(picks: Seq<int>, n: Seq<char>, h: Seq<char>)
    requires
        is_selection(picks, n, h),
    ensures
        is_subsequence(n, h),
    decreases h.len(),
{
    if n.len() == 0 {
    } else {
        assert(0 <= picks[0] < h.len());
        if h[0] == n[0] {
            let tail_picks = picks.drop_first().map_values(|x: int| x - 1);
            assert forall|i: int| 0 <= i < tail_picks.len() implies 0 <= #[trigger] tail_picks[i]
                < h.drop_first().len() && h.drop_first()[tail_picks[i]] == n.drop_first()[i] by {
                lemma_picks_increase(picks, 0, i + 1);
                assert(tail_picks[i] == picks[i + 1] - 1);
                assert(h[picks[i + 1]] == n[i + 1]);
            }
            assert forall|i: int| 0 < i < tail_picks.len() implies tail_picks[i - 1]
                < #[trigger] tail_picks[i] by {
                assert(picks[i] < picks[i + 1]);
            }
            assert(is_selection(tail_picks, n.drop_first(), h.drop_first()));
            lemma_selection_to_subseq(tail_picks, n.drop_first(), h.drop_first());
        } else {
            assert(picks[0] != 0);
            let tail_picks = picks.map_values(|x: int| x - 1);
            assert forall|i: int| 0 <= i < tail_picks.len() implies 0 <= #[trigger] tail_picks[i]
                < h.drop_first().len() && h.drop_first()[tail_picks[i]] == n[i] by {
                if i > 0 {
                    lemma_picks_increase(picks, 0, i);
                }
                assert(tail_picks[i] == picks[i] - 1);
                assert(h[picks[i]] == n[i]);
            }
            assert forall|i: int| 0 < i < tail_picks.len() implies tail_picks[i - 1]
                < #[trigger] tail_picks[i] by {
                assert(picks[i - 1] < picks[i]);
            }
            assert(is_selection(tail_picks, n, h.drop_first()));
            lemma_selection_to_subseq(tail_picks, n, h.drop_first());
        }
    }
}

/// Strictly increasing adjacent picks increase over any distance.
proof fn lemma_picks_increase(picks: Seq<int>, a: int, b: int)
    requires
        forall|i: int| 0 < i < picks.len() ==> picks[i - 1] < #[trigger] picks[i],
        0 <= a < b < picks.len(),
    ensures
        picks[a] < picks[b],
    decreases b - a,
{
    if a + 1 < b {
        lemma_picks_increase(picks, a + 1, b);
    }
}

/// The recursion [`is_subsequence`] accepts exactly the ordered
/// subsequences: the needles whose characters can be assigned strictly
/// increasing positions of the haystack.
pub proof fn lemma_subsequence_characterization(n: Seq<char>, h: Seq<char>)
    ensures
        is_subsequence(n, h) <==> exists|picks: Seq<int>| is_selection(picks, n, h),
{
    if is_subsequence(n, h) {
        lemma_subseq_to_selection(n, h);
    }
    if exists|picks: Seq<int>| is_selection(picks, n, h) {
        let picks = choose|p: Seq<int>| is_selection(p, n, h);
        lemma_selection_to_subseq(picks, n, h);
    }
}

/// The views of a vector of character vectors.
pub open spec fn views_of(parts: Seq<Vec<char>>) -> Seq<Seq<char>> {
    parts.map_values(|p: Vec<char>| p@)
}

/// Parts `k..` of the chain occur in `s`, the first of them exactly at
/// `pos`, each followed by a run of at least `min_gap` word characters
/// before the next part (and after the last part).
pub open spec fn chain_at(parts: Seq<Seq<char>>, k: int, s: Seq<char>, pos: int, min_gap: int) -> bool
    decreases parts.len() - k, s.len() - pos, 0int,
{
    if k < 0 || k >= parts.len() {
        true
    } else if !occurs_at(s, pos, parts[k]) {
        false
    } else {
        gap_chain(parts, k + 1, s, pos + parts[k].len(), 0, min_gap)
    }
}

/// A run of word characters is being crossed before part `k` of the chain:
/// `gap` word characters have been crossed already, and either the run is
/// long enough and the rest of the chain starts here, or one more word
/// character extends it.
pub open spec fn gap_chain(
    parts: Seq<Seq<char>>,
    k: int,
    s: Seq<char>,
    pos: int,
    gap: int,
    min_gap: int,
) -> bool
    decreases parts.len() - k, s.len() - pos, 1int,
{
    ||| (gap >= min_gap && chain_at(parts, k, s, pos, min_gap))
    ||| (pos < s.len() && is_word_char(s[pos]) && gap_chain(parts, k, s, pos + 1, gap + 1, min_gap))
}

/// The whole chain occurs somewhere in `s`.
pub open spec fn chain_matches(parts: Seq<Seq<char>>, s: Seq<char>, min_gap: int) -> bool {
    exists|pos: int| 0 <= pos <= s.len() && chain_at(parts, 0, s, pos, min_gap)
}

/// Helper for [`camel_segments`]: scans `s` left to right; `cur` is the
/// segment currently open and `started` says whether one is open at all.
pub open spec fn segs_h(s: Seq<char>, cur: Seq<char>, started: bool) -> Seq<Seq<char>>
    decreases s.len(),
{
    if s.len() == 0 {
        if started {
            seq![cur]
        } else {
            Seq::empty()
        }
    } else if is_upper_char(s[0]) {
        (if started {
            seq![cur]
        } else {
            Seq::empty()
        }) + segs_h(s.drop_first(), seq![s[0]], true)
    } else if started {
        segs_h(s.drop_first(), cur.push(s[0]), true)
    } else {
        segs_h(s.drop_first(), cur, false)
    }
}

/// The camel-case segments of a query: each run that opens with an ASCII
/// capital and continues up to (not including) the next capital.  Characters
/// before the first capital belong to no segment.
pub open spec fn camel_segments(q: Seq<char>) -> Seq<Seq<char>> {
    segs_h(q, Seq::empty(), false)
}

/// Each character of `s` as a one-character part of a chain.
pub open spec fn singleton_parts(s: Seq<char>) -> Seq<Seq<char>> {
    s.map_values(|c: char| seq![c])
}

/// Exec test for [`occurs_at`].
pub fn occurs_at_exec(hay: &Vec<char>, pos: usize, needle: &Vec<char>) -> (r: bool)
    requires
        pos <= hay@.len(),
    ensures
        r == occurs_at(hay@, pos as int, needle@),
{
    if needle.len() > hay.len() - pos {
        return false;
    }
    let mut j: usize = 0;
    while j < needle.len()
        invariant
            pos + needle@.len() <= hay@.len(),
            hay@.len() <= usize::MAX,
            j <= needle@.len(),
            forall|m: int| 0 <= m < j ==> hay@[pos + m] == needle@[m],
        decreases needle@.len() - j,
    {
        if hay[pos + j] != needle[j] {
            proof {
                assert(hay@.subrange(pos as int, pos + needle@.len() as int)[j as int] == hay@[pos
                    + j]);
            }
            return false;
        }
        j = j + 1;
    }
    proof {
        assert(hay@.subrange(pos as int, pos + needle@.len() as int) =~= needle@);
    }
    true
}

/// Exec test for [`is_substring`].
pub fn is_substring_exec(needle: &Vec<char>, hay: &Vec<char>) -> (r: bool)
    ensures
        r == is_substring(needle@, hay@),
{
    let n = hay.len();
    let mut pos: usize = 0;
    while pos < n
        invariant
            n == hay@.len(),
            pos <= n,
            forall|p: int| 0 <= p < pos ==> !occurs_at(hay@, p, needle@),
        decreases n - pos,
    {
        if occurs_at_exec(hay, pos, needle) {
            return true;
        }
        pos = pos + 1;
    }
    if occurs_at_exec(hay, n, needle) {
        return true;
    }
    false
}

/// Unfolding step for [`is_subsequence`] over suffixes.
proof fn lemma_subseq_step(n: Seq<char>, h: Seq<char>, ni: int, hi: int)
    requires
        0 <= ni < n.len(),
        0 <= hi < h.len(),
    ensures
        is_subsequence(n.skip(ni), h.skip(hi)) == if h[hi] == n[ni] {
            is_subsequence(n.skip(ni + 1), h.skip(hi + 1))
        } else {
            is_subsequence(n.skip(ni), h.skip(hi + 1))
        },
{
    assert(n.skip(ni).len() > 0);
    assert(n.skip(ni)[0] == n[ni]);
    assert(h.skip(hi)[0] == h[hi]);
    assert(n.skip(ni).drop_first() =~= n.skip(ni + 1));
    assert(h.skip(hi).drop_first() =~= h.skip(hi + 1));
}

/// Exec test for [`is_subsequence`], by the two-pointer scan.
pub fn is_subsequence_exec(needle: &Vec<char>, hay: &Vec<char>) -> (r: bool)
    ensures
        r == is_subsequence(needle@, hay@),
{
    let mut ni: usize = 0;
    let mut hi: usize = 0;
    proof {
        assert(needle@.skip(0) =~= needle@);
        assert(hay@.skip(0) =~= hay@);
    }
    while ni < needle.len() && hi < hay.len()
        invariant
            ni <= needle@.len(),
            hi <= hay@.len(),
            is_subsequence(needle@, hay@) == is_subsequence(
                needle@.skip(ni as int),
                hay@.skip(hi as int),
            ),
        decreases hay@.len() - hi,
    {
        proof {
            lemma_subseq_step(needle@, hay@, ni as int, hi as int);
        }
        if needle[ni] == hay[hi] {
            ni = ni + 1;
        }
        hi = hi + 1;
    }
    if ni == needle.len() {
        proof {
            assert(needle@.skip(needle@.len() as int) =~= Seq::<char>::empty());
        }
        true
    } else {
        proof {
            assert(hay@.skip(hay@.len() as int) =~= Seq::<char>::empty());
        }
        false
    }
}

/// Exec test for [`chain_at`].
fn chain_at_exec(parts: &Vec<Vec<char>>, k: usize, s: &Vec<char>, pos: usize, min_gap: usize) -> (r:
    bool)
    requires
        k <= parts@.len(),
        pos <= s@.len(),
    ensures
        r == chain_at(views_of(parts@), k as int, s@, pos as int, min_gap as int),
    decreases parts@.len() - k, s@.len() - pos, 0int,
{
    if k >= parts.len() {
        return true;
    }
    if !occurs_at_exec(s, pos, &parts[k]) {
        return false;
    }
    proof {
        assert(views_of(parts@)[k as int] == parts@[k as int]@);
        assert(pos + parts@[k as int]@.len() <= s@.len());
    }
    let part_len = parts[k].len();
    proof {
        assert(part_len == parts@[k as int]@.len());
        assert(pos + part_len <= s@.len());
        assert(s.len() == s@.len());
    }
    gap_chain_exec(parts, k + 1, s, pos + part_len, 0, min_gap)
}

/// Exec test for [`gap_chain`].
fn gap_chain_exec(
    parts: &Vec<Vec<char>>,
    k: usize,
    s: &Vec<char>,
    pos: usize,
    gap: usize,
    min_gap: usize,
) -> (r: bool)
    requires
        k <= parts@.len(),
        pos <= s@.len(),
        gap <= pos,
    ensures
        r == gap_chain(views_of(parts@), k as int, s@, pos as int, gap as int, min_gap as int),
    decreases parts@.len() - k, s@.len() - pos, 1int,
{
    if gap >= min_gap && chain_at_exec(parts, k, s, pos, min_gap) {
        return true;
    }
    if pos < s.len() && is_word(s[pos]) {
        return gap_chain_exec(parts, k, s, pos + 1, gap + 1, min_gap);
    }
    false
}

/// Unfolding step for [`segs_h`] over a growing prefix.
proof fn lemma_segs_step(s: Seq<char>, i: int, cur: Seq<char>, started: bool)
    requires
        0 <= i < s.len(),
    ensures
        segs_h(s.skip(i), cur, started) == if is_upper_char(s[i]) {
            (if started {
                seq![cur]
            } else {
                Seq::<Seq<char>>::empty()
            }) + segs_h(s.skip(i + 1), seq![s[i]], true)
        } else if started {
            segs_h(s.skip(i + 1), cur.push(s[i]), true)
        } else {
            segs_h(s.skip(i + 1), cur, false)
        },
{
    assert(s.skip(i).len() > 0);
    assert(s.skip(i)[0] == s[i]);
    assert(s.skip(i).drop_first() =~= s.skip(i + 1));
}

/// The camel-case segments of a query, as vectors.
pub fn camel_segments_vec(q: &Vec<char>) -> (r: Vec<Vec<char>>)
    ensures
        views_of(r@) == camel_segments(q@),
{
    let mut out: Vec<Vec<char>> = Vec::new();
    let mut cur: Vec<char> = Vec::new();
    let mut started = false;
    let mut i: usize = 0;
    proof {
        assert(q@.skip(0) =~= q@);
        assert(views_of(out@) =~= Seq::<Seq<char>>::empty());
        assert(views_of(out@) + camel_segments(q@) =~= camel_segments(q@));
    }
    while i < q.len()
        invariant
            i <= q@.len(),
            camel_segments(q@) == views_of(out@) + segs_h(q@.skip(i as int), cur@, started),
        decreases q@.len() - i,
    {
        proof {
            lemma_segs_step(q@, i as int, cur@, started);
        }
        let c = q[i];
        if is_upper(c) {
            if started {
                let ghost old_out = out@;
                let ghost old_cur = cur@;
                out.push(cur);
                proof {
                    assert(views_of(out@) =~= views_of(old_out) + seq![old_cur]);
                }
            }
            let mut nc: Vec<char> = Vec::new();
            nc.push(c);
            cur = nc;
            started = true;
            proof {
                assert(cur@ =~= seq![q@[i as int]]);
                assert(camel_segments(q@) =~= views_of(out@) + segs_h(
                    q@.skip(i + 1),
                    cur@,
                    started,
                ));
            }
        } else if started {
            cur.push(c);
        }
        i = i + 1;
    }
    proof {
        assert(q@.skip(q@.len() as int) =~= Seq::<char>::empty());
    }
    if started {
        let ghost old_out = out@;
        let ghost old_cur = cur@;
        out.push(cur);
        proof {
            assert(views_of(out@) =~= views_of(old_out) + seq![old_cur]);
            assert(camel_segments(q@) =~= views_of(out@));
        }
    } else {
        proof {
            assert(camel_segments(q@) =~= views_of(out@));
        }
    }
    out
}

/// Each character of `v` as a one-character chain part.
pub fn singleton_parts_vec(v: &Vec<char>) -> (r: Vec<Vec<char>>)
    ensures
        views_of(r@) == singleton_parts(v@),
{
    let mut out: Vec<Vec<char>> = Vec::new();
    let mut i: usize = 0;
    proof {
        assert(views_of(out@) =~= singleton_parts(v@.take(0)));
    }
    while i < v.len()
        invariant
            i <= v@.len(),
            views_of(out@) == singleton_parts(v@.take(i as int)),
        decreases v@.len() - i,
    {
        let mut p: Vec<char> = Vec::new();
        p.push(v[i]);
        let ghost old_out = out@;
        let ghost pv = p@;
        out.push(p);
        i = i + 1;
        proof {
            assert(pv =~= seq![v@[i - 1]]);
            assert(views_of(out@) =~= views_of(old_out).push(pv));
            assert(views_of(out@) =~= singleton_parts(v@.take(i as int)));
        }
    }
    proof {
        assert(v@.take(v@.len() as int) =~= v@);
    }
    out
}

/// Exec test for [`chain_matches`].
pub fn chain_match(parts: &Vec<Vec<char>>, s: &Vec<char>, min_gap: usize) -> (r: bool)
    ensures
        r == chain_matches(views_of(parts@), s@, min_gap as int),
{
    let n = s.len();
    let mut pos: usize = 0;
    while pos < n
        invariant
            n == s@.len(),
            pos <= n,
            forall|p: int|
                0 <= p < pos ==> !chain_at(views_of(parts@), 0, s@, p, min_gap as int),
        decreases n - pos,
    {
        if chain_at_exec(parts, 0, s, pos, min_gap) {
            return true;
        }
        pos = pos + 1;
    }
    if chain_at_exec(parts, 0, s, n, min_gap) {
        return true;
    }
    false
}

} // verus!

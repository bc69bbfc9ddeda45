//! Fuzzy filtering and ranking of list items.
//!
//! Each keyword of an item is scored by nucleo's fuzzy matcher; an item's
//! score is its best keyword score times its weight, items without any
//! matching keyword are dropped, and the rest are ordered by descending
//! score, ties keeping their original order.

use vstd::prelude::*;

verus! {

/// The score that nucleo's fuzzy matcher (smart case, smart normalization,
/// default configuration) gives `haystack` for `pattern`; `None` when the
/// pattern does not match.
pub uninterp spec fn nucleo_score(pattern: Seq<char>, haystack: Seq<char>) -> Option<u16>;

/// The score that nucleo's fuzzy matcher gives `haystack` for `pattern`
/// with its path bonuses (`Config::set_match_paths`), on the non-Windows
/// targets the launcher builds for, where `/` and `:` are the path
/// delimiters; `None` when the pattern does not match.
pub uninterp spec fn nucleo_path_score(pattern: Seq<char>, haystack: Seq<char>) -> Option<u16>;

/// Scores `keyword` for `pattern` with `nucleo::pattern::Atom::score` under
/// `nucleo::Config::DEFAULT`.
///
/// Claimed: the result is `nucleo_score(pattern, keyword)`, a function of the
/// two strings alone (the matcher's scratch buffers do not change the score);
/// an empty pattern scores every keyword 0 (`fuzzy_match` returns `Some(0)`
/// for an empty needle before anything else is looked at).
#[verifier::external_body]
fn score_keyword(pattern: &str, keyword: &str) -> (r: Option<u16>)
    ensures
        r == nucleo_score(pattern@, keyword@),
        pattern@.len() == 0 ==> r == Some(0u16),
{
    let mut matcher = nucleo::Matcher::new(nucleo::Config::DEFAULT);
    let atom = nucleo::pattern::Atom::new(
        pattern,
        nucleo::pattern::CaseMatching::Smart,
        nucleo::pattern::Normalization::Smart,
        nucleo::pattern::AtomKind::Fuzzy,
        false,
    );
    let mut buf = Vec::new();
    atom.score(nucleo::Utf32Str::new(keyword, &mut buf), &mut matcher)
}

/// Scores `keyword` for `pattern` with `nucleo::pattern::Atom::score` under
/// `nucleo::Config::DEFAULT` after `Config::set_match_paths`.
///
/// Claimed: the result is `nucleo_path_score(pattern, keyword)`, a function
/// of the two strings alone on the non-Windows targets the launcher builds
/// for (`set_match_paths` picks its delimiters by target); an empty pattern
/// scores every keyword 0, as without path matching.
#[verifier::external_body]
fn score_path_keyword(pattern: &str, keyword: &str) -> (r: Option<u16>)
    ensures
        r == nucleo_path_score(pattern@, keyword@),
        pattern@.len() == 0 ==> r == Some(0u16),
{
    let mut matcher = nucleo::Matcher::new(nucleo::Config::DEFAULT);
    matcher.config.set_match_paths();
    let atom = nucleo::pattern::Atom::new(
        pattern,
        nucleo::pattern::CaseMatching::Smart,
        nucleo::pattern::Normalization::Smart,
        nucleo::pattern::AtomKind::Fuzzy,
        false,
    );
    let mut buf = Vec::new();
    atom.score(nucleo::Utf32Str::new(keyword, &mut buf), &mut matcher)
}

/// The best of the scores that are present; `None` when none is.
pub open spec fn best_score(s: Seq<Option<u16>>) -> Option<u16>
    decreases s.len(),
{
    if s.len() == 0 {
        None
    } else {
        let rest = best_score(s.drop_last());
        match s.last() {
            None => rest,
            Some(v) => match rest {
                None => Some(v),
                Some(m) => Some(if v > m { v } else { m }),
            },
        }
    }
}

/// A best score multiplied by the item's weight (1 when it has none), in
/// `u16` arithmetic that wraps on overflow.
pub open spec fn weighted(best: Option<u16>, weight: Option<u16>) -> Option<u16> {
    match best {
        None => None,
        Some(v) => {
            let w: int = match weight {
                Some(w) => w as int,
                None => 1,
            };
            Some(((v as int * w) % 65536) as u16)
        },
    }
}

/// The score of an item with `keywords` and `weight` for `pattern`.
pub open spec fn item_score(pattern: Seq<char>, keywords: Seq<Seq<char>>, weight: Option<u16>) -> Option<u16> {
    weighted(best_score(keywords.map_values(|k: Seq<char>| nucleo_score(pattern, k))), weight)
}

/// The score of a keyword for `pattern`, with nucleo's path bonuses where
/// `path` is set.
pub open spec fn keyword_score(pattern: Seq<char>, keyword: Seq<char>, path: bool) -> Option<u16> {
    if path {
        nucleo_path_score(pattern, keyword)
    } else {
        nucleo_score(pattern, keyword)
    }
}

/// The score of an item with `keywords` and `weight` for `pattern`, with
/// nucleo's path bonuses where `path` is set.
pub open spec fn item_score_in(pattern: Seq<char>, keywords: Seq<Seq<char>>, weight: Option<u16>, path: bool) -> Option<u16> {
    if path {
        weighted(best_score(keywords.map_values(|k: Seq<char>| nucleo_path_score(pattern, k))), weight)
    } else {
        item_score(pattern, keywords, weight)
    }
}

/// Index `i` comes before index `j` in a ranking by `scores`: a higher
/// score, or the same score and an earlier position.
pub open spec fn ranked_before(scores: Seq<Option<u16>>, i: int, j: int) -> bool {
    ||| scores[i]->0 > scores[j]->0
    ||| scores[i]->0 == scores[j]->0 && i < j
}

/// `p` lists every index whose score is present, once each, by descending
/// score, ties in their original order.
pub open spec fn is_ranking(p: Seq<int>, scores: Seq<Option<u16>>) -> bool {
    &&& forall|k: int| 0 <= k < p.len() ==> 0 <= #[trigger] p[k] < scores.len() && scores[p[k]] is Some
    &&& forall|i: int|
        0 <= i < scores.len() && #[trigger] scores[i] is Some ==> exists|k: int| 0 <= k < p.len() && p[k] == i
    &&& forall|k: int, l: int| 0 <= k < l < p.len() ==> ranked_before(scores, #[trigger] p[k], #[trigger] p[l])
}

/// `r` holds the items whose score is present, ranked as `is_ranking` says.
pub open spec fn ranked_from<T>(r: Seq<T>, items: Seq<T>, scores: Seq<Option<u16>>) -> bool {
    exists|p: Seq<int>| is_ranking(p, scores) && r == p.map_values(|i: int| items[i])
}

/// Keeps the items whose score is present and orders them by descending
/// score; items with the same score keep their order.
pub fn rank_by_score<T>(items: Vec<T>, scores: Vec<Option<u16>>) -> (r: Vec<T>)
    requires
        items.len() == scores.len(),
    ensures
        ranked_from(r@, items@, scores@),
{
    let ghost orig = items@;
    let ghost sc = scores@;
    let mut items = items;
    let mut scores = scores;
    let mut out: Vec<T> = Vec::new();
    let mut out_scores: Vec<u16> = Vec::new();
    let ghost mut p: Seq<int> = Seq::empty();
    while items.len() > 0
        invariant
            items.len() == scores.len(),
            sc.len() == orig.len(),
            items.len() <= orig.len(),
            items@ == orig.take(items.len() as int),
            scores@ == sc.take(scores.len() as int),
            out.len() == out_scores.len(),
            out.len() == p.len(),
            forall|k: int|
                0 <= k < p.len() ==> items.len() <= #[trigger] p[k] < orig.len() && sc[p[k]] == Some(
                    out_scores@[k],
                ) && out@[k] == orig[p[k]],
            forall|i: int|
                items.len() <= i < orig.len() && #[trigger] sc[i] is Some ==> exists|k: int|
                    0 <= k < p.len() && p[k] == i,
            forall|k: int, l: int| 0 <= k < l < p.len() ==> ranked_before(sc, #[trigger] p[k], #[trigger] p[l]),
        decreases items.len(),
    {
        let item = items.pop().unwrap();
        let score = scores.pop().unwrap();
        let i = items.len();
        assert(item == orig[i as int]);
        assert(score == sc[i as int]);
        match score {
            Some(v) => {
                let mut pos: usize = 0;
                while pos < out_scores.len() && out_scores[pos] > v
                    invariant
                        pos <= out_scores.len(),
                        forall|k: int| 0 <= k < pos ==> out_scores@[k] > v,
                    decreases out_scores.len() - pos,
                {
                    pos = pos + 1;
                }
                let ghost old_p = p;
                let ghost old_out = out@;
                let ghost old_scores = out_scores@;
                out.insert(pos, item);
                out_scores.insert(pos, v);
                proof {
                    p = p.insert(pos as int, i as int);
                    assert forall|k: int| pos <= k < old_p.len() implies old_scores[k] <= v by {
                        if k > pos {
                            assert(ranked_before(sc, old_p[pos as int], old_p[k]));
                        }
                    }
                    assert forall|k: int, l: int| 0 <= k < l < p.len() implies ranked_before(
                        sc,
                        #[trigger] p[k],
                        #[trigger] p[l],
                    ) by {
                        if k < pos && l < pos {
                            assert(ranked_before(sc, old_p[k], old_p[l]));
                        } else if k < pos && l == pos {
                            assert(sc[old_p[k]] == Some(old_scores[k]));
                        } else if k < pos {
                            assert(ranked_before(sc, old_p[k], old_p[l - 1]));
                        } else if k == pos {
                            assert(sc[old_p[l - 1]] == Some(old_scores[l - 1]));
                        } else {
                            assert(ranked_before(sc, old_p[k - 1], old_p[l - 1]));
                        }
                    }
                    assert forall|j: int|
                        items.len() <= j < orig.len() && #[trigger] sc[j] is Some implies exists|k: int|
                        0 <= k < p.len() && p[k] == j by {
                        if j == i {
                            assert(p[pos as int] == j);
                        } else {
                            let k = choose|k: int| 0 <= k < old_p.len() && old_p[k] == j;
                            if k < pos {
                                assert(p[k] == j);
                            } else {
                                assert(p[k + 1] == j);
                            }
                        }
                    }
                }
            },
            None => {
                proof {
                    assert forall|j: int|
                        items.len() <= j < orig.len() && #[trigger] sc[j] is Some implies exists|k: int|
                        0 <= k < p.len() && p[k] == j by {
                        if j == i {
                            assert(false);
                        }
                    }
                }
            },
        }
        proof {
            assert(items@ =~= orig.take(items.len() as int));
            assert(scores@ =~= sc.take(scores.len() as int));
        }
    }
    proof {
        assert(out@ =~= p.map_values(|j: int| orig[j]));
        assert(is_ranking(p, sc));
    }
    out
}

/// The scores of `items` for `pattern` (with path bonuses where `path` is
/// set).
pub open spec fn scores_of<T: Score>(pattern: Seq<char>, items: Seq<T>, path: bool) -> Seq<Option<u16>> {
    items.map_values(|t: T| item_score_in(pattern, t.keyword_view(), t.weight_view(), path))
}

/// A strictly increasing sequence of indices below `n` that lists every
/// one of them is `0, 1, ..., n - 1`: its first `k + 1` entries.
proof fn lemma_increasing_prefix(p: Seq<int>, n: int, k: int)
    requires
        0 <= k < p.len(),
        forall|i: int| 0 <= i < p.len() ==> 0 <= #[trigger] p[i] < n,
        forall|i: int, j: int| 0 <= i < j < p.len() ==> #[trigger] p[i] < #[trigger] p[j],
        forall|i: int| 0 <= i < n ==> #[trigger] crate::sort::covers(p, i),
    ensures
        forall|j: int| 0 <= j <= k ==> #[trigger] p[j] == j,
    decreases k,
{
    if k > 0 {
        lemma_increasing_prefix(p, n, k - 1);
        assert(p[k - 1] == k - 1);
        assert(p[k - 1] < p[k]);
    }
    if p[k] != k {
        assert(p[k] > k);
        assert(crate::sort::covers(p, k));
        let j = choose|j: int| 0 <= j < p.len() && p[j] == k;
        if j < k {
            assert(p[j] == j);
        } else if j > k {
            assert(p[k] < p[j]);
        }
    }
}

/// Such a sequence is exactly `0, 1, ..., n - 1`.
proof fn lemma_increasing_cover(p: Seq<int>, n: int)
    requires
        0 <= n,
        forall|i: int| 0 <= i < p.len() ==> 0 <= #[trigger] p[i] < n,
        forall|i: int, j: int| 0 <= i < j < p.len() ==> #[trigger] p[i] < #[trigger] p[j],
        forall|i: int| 0 <= i < n ==> #[trigger] crate::sort::covers(p, i),
    ensures
        p.len() == n,
        forall|j: int| 0 <= j < p.len() ==> #[trigger] p[j] == j,
{
    if p.len() > 0 {
        lemma_increasing_prefix(p, n, p.len() - 1);
    }
    if p.len() < n {
        assert(crate::sort::covers(p, n - 1));
        let j = choose|j: int| 0 <= j < p.len() && p[j] == n - 1;
        assert(p[j] == j);
    }
    if p.len() > n {
        assert(p[n] == n);
    }
}

/// Ranking a ranked list again gives it back: where `r` is what
/// `fuzzy_match` gives for `pattern` and `items`, and `again` what it gives
/// for `pattern` and `r`, then `again` is `r`.
pub proof fn law_rank_twice<T: Score>(pattern: Seq<char>, items: Seq<T>, r: Seq<T>, again: Seq<T>, path: bool)
    requires
        ranked_from(r, items, scores_of(pattern, items, path)),
        ranked_from(again, r, scores_of(pattern, r, path)),
    ensures
        again == r,
{
    let sc = scores_of(pattern, items, path);
    let sr = scores_of(pattern, r, path);
    let p1 = choose|p: Seq<int>| is_ranking(p, sc) && r == p.map_values(|i: int| items[i]);
    let p2 = choose|p: Seq<int>| is_ranking(p, sr) && again == p.map_values(|i: int| r[i]);
    assert forall|k: int| 0 <= k < r.len() implies #[trigger] sr[k] == sc[p1[k]] by {
        assert(r[k] == items[p1[k]]);
    }
    assert forall|k: int, l: int| 0 <= k < l < r.len() implies (#[trigger] sr[k])->0 >= (#[trigger] sr[l])->0 by {
        assert(ranked_before(sc, p1[k], p1[l]));
    }
    assert forall|k: int, l: int| 0 <= k < l < p2.len() implies #[trigger] p2[k] < #[trigger] p2[l] by {
        assert(ranked_before(sr, p2[k], p2[l]));
        if p2[k] > p2[l] {
            assert(sr[p2[l]]->0 >= sr[p2[k]]->0);
        }
    }
    assert forall|i: int| 0 <= i < r.len() implies #[trigger] crate::sort::covers(p2, i) by {
        assert(sc[p1[i]] is Some);
        assert(sr[i] is Some);
    }
    lemma_increasing_cover(p2, r.len() as int);
    assert(again =~= r);
}

/// What the fuzzy filter reads of a list item: its keywords and its weight.
pub trait Score {
    /// The keywords the item is found by.
    spec fn keyword_view(&self) -> Seq<Seq<char>>;

    /// The weight its best keyword score is multiplied by.
    spec fn weight_view(&self) -> Option<u16>;

    fn keywords(&self) -> (r: Vec<String>)
        ensures
            r@.map_values(|k: String| k@) == self.keyword_view(),
    ;

    fn weight(&self) -> (r: Option<u16>)
        ensures
            r == self.weight_view(),
    ;
}

/// The best keyword score of `item` for `pattern`, weighted.
fn score_item<T: Score>(pattern: &str, item: &T, path: bool) -> (r: Option<u16>)
    ensures
        r == item_score_in(pattern@, item.keyword_view(), item.weight_view(), path),
        pattern@.len() == 0 ==> r == (if item.keyword_view().len() > 0 { Some(0u16) } else { None }),
{
    let keywords = item.keywords();
    let ghost kv = item.keyword_view();
    let ghost scored = kv.map_values(|k: Seq<char>| keyword_score(pattern@, k, path));
    let mut best: Option<u16> = None;
    let mut i: usize = 0;
    while i < keywords.len()
        invariant
            i <= keywords.len(),
            keywords@.map_values(|k: String| k@) == kv,
            scored == kv.map_values(|k: Seq<char>| keyword_score(pattern@, k, path)),
            best == best_score(scored.take(i as int)),
            pattern@.len() == 0 ==> best == (if i > 0 { Some(0u16) } else { None }),
        decreases keywords.len() - i,
    {
        let s = if path {
            score_path_keyword(pattern, keywords[i].as_str())
        } else {
            score_keyword(pattern, keywords[i].as_str())
        };
        proof {
            assert(keywords@[i as int]@ == kv[i as int]);
            assert(scored.take(i + 1).drop_last() =~= scored.take(i as int));
        }
        best = match s {
            None => best,
            Some(v) => match best {
                None => Some(v),
                Some(m) => Some(if v > m { v } else { m }),
            },
        };
        i = i + 1;
    }
    proof {
        assert(scored.take(keywords.len() as int) =~= scored);
        if path {
            assert(scored =~= kv.map_values(|k: Seq<char>| nucleo_path_score(pattern@, k)));
        } else {
            assert(scored =~= kv.map_values(|k: Seq<char>| nucleo_score(pattern@, k)));
        }
    }
    let weight = match item.weight() {
        Some(w) => w,
        None => 1,
    };
    match best {
        None => None,
        Some(v) => {
            assert(v * weight <= u16::MAX * u16::MAX) by (nonlinear_arith)
                requires v <= u16::MAX, weight <= u16::MAX;
            let prod: u32 = (v as u32) * (weight as u32);
            proof {
                if v == 0 {
                    assert(prod == 0) by (nonlinear_arith)
                        requires v == 0, prod == v * weight;
                }
            }
            Some((prod % 65536) as u16)
        },
    }
}

/// The items with some keyword, in order, where every present score is 0
/// and exactly the items with keywords have one.
fn keep_matching<T: Score>(items: Vec<T>, scores: Vec<Option<u16>>) -> (r: Vec<T>)
    requires
        items.len() == scores.len(),
        forall|i: int|
            0 <= i < items@.len() ==> (#[trigger] scores@[i] is Some) == (items@[i].keyword_view().len() > 0),
        forall|i: int| 0 <= i < items@.len() && #[trigger] scores@[i] is Some ==> scores@[i] == Some(0u16),
    ensures
        r@ == items@.filter(|t: T| t.keyword_view().len() > 0),
        ranked_from(r@, items@, scores@),
{
    let ghost orig = items@;
    let ghost sc = scores@;
    let ghost pred = |t: T| t.keyword_view().len() > 0;
    let n = items.len();
    let mut items = items;
    let mut rev: Vec<T> = Vec::new();
    while items.len() > 0
        invariant
            n == orig.len(),
            items@.len() + rev@.len() == n,
            items@ == orig.take(items@.len() as int),
            forall|k: int| 0 <= k < rev@.len() ==> #[trigger] rev@[k] == orig[n - 1 - k],
        decreases items.len(),
    {
        let t = items.pop().unwrap();
        rev.push(t);
        proof {
            assert(items@ =~= orig.take(items@.len() as int));
        }
    }
    let mut out: Vec<T> = Vec::new();
    let mut i: usize = 0;
    let ghost mut p: Seq<int> = Seq::empty();
    while rev.len() > 0
        invariant
            n == orig.len(),
            n == sc.len(),
            scores@ == sc,
            rev@.len() + i == n,
            forall|k: int| 0 <= k < rev@.len() ==> #[trigger] rev@[k] == orig[n - 1 - k],
            pred == (|t: T| t.keyword_view().len() > 0),
            forall|j: int| 0 <= j < n ==> (#[trigger] sc[j] is Some) == pred(orig[j]),
            forall|j: int| 0 <= j < n && #[trigger] sc[j] is Some ==> sc[j] == Some(0u16),
            out@ == orig.take(i as int).filter(pred),
            out@ == p.map_values(|j: int| orig[j]),
            forall|k: int| 0 <= k < p.len() ==> 0 <= #[trigger] p[k] < i && sc[p[k]] is Some,
            forall|k: int, l: int| 0 <= k < l < p.len() ==> #[trigger] p[k] < #[trigger] p[l],
            forall|j: int| 0 <= j < i && #[trigger] sc[j] is Some ==> exists|k: int| 0 <= k < p.len() && p[k] == j,
        decreases rev.len(),
    {
        let t = rev.pop().unwrap();
        proof {
            assert(t == orig[i as int]);
            assert(orig.take(i + 1) =~= orig.take(i as int).push(orig[i as int]));
            orig.take(i as int).lemma_filter_push(orig[i as int], pred);
            assert((sc[i as int] is Some) == pred(orig[i as int]));
        }
        if scores[i].is_some() {
            let ghost old_p = p;
            out.push(t);
            proof {
                p = p.push(i as int);
                assert(out@ =~= p.map_values(|j: int| orig[j]));
                assert forall|j: int| 0 <= j < i + 1 && #[trigger] sc[j] is Some implies exists|k: int|
                    0 <= k < p.len() && p[k] == j by {
                    if j == i {
                        assert(p[old_p.len() as int] == j);
                    } else {
                        let k = choose|k: int| 0 <= k < old_p.len() && old_p[k] == j;
                        assert(p[k] == j);
                    }
                }
            }
        }
        i = i + 1;
    }
    proof {
        assert(orig.take(n as int) =~= orig);
        assert forall|k: int, l: int| 0 <= k < l < p.len() implies ranked_before(sc, #[trigger] p[k], #[trigger] p[l]) by {
            assert(sc[p[k]] == Some(0u16));
            assert(sc[p[l]] == Some(0u16));
        }
        assert(is_ranking(p, sc));
    }
    out
}

/// Filters `items` by the fuzzy `pattern` and ranks them: items with no
/// matching keyword are dropped, the rest ordered by descending weighted
/// score, equal scores in their original order. With `path` the matcher
/// uses nucleo's path bonuses.
pub fn fuzzy_match<T: Score>(pattern: &str, items: Vec<T>, path: bool) -> (r: Vec<T>)
    ensures
        exists|scores: Seq<Option<u16>>|
            {
                &&& scores.len() == items@.len()
                &&& forall|i: int|
                    0 <= i < items@.len() ==> #[trigger] scores[i] == item_score_in(
                        pattern@,
                        items@[i].keyword_view(),
                        items@[i].weight_view(),
                        path,
                    )
                &&& ranked_from(r@, items@, scores)
            },
        pattern@.len() == 0 ==> r@ == items@.filter(|t: T| t.keyword_view().len() > 0),
{
    let mut scores: Vec<Option<u16>> = Vec::new();
    let mut i: usize = 0;
    while i < items.len()
        invariant
            i <= items.len(),
            scores.len() == i,
            forall|j: int|
                0 <= j < i ==> #[trigger] scores@[j] == item_score_in(
                    pattern@,
                    items@[j].keyword_view(),
                    items@[j].weight_view(),
                    path,
                ),
            pattern@.len() == 0 ==> forall|j: int|
                0 <= j < i ==> #[trigger] scores@[j] == (if items@[j].keyword_view().len() > 0 {
                    Some(0u16)
                } else {
                    None
                }),
        decreases items.len() - i,
    {
        let s = score_item(pattern, &items[i], path);
        scores.push(s);
        i = i + 1;
    }
    let ghost sv = scores@;
    let ghost iv = items@;
    if pattern.unicode_len() == 0 {
        let r = keep_matching(items, scores);
        assert(sv.len() == iv.len());
        r
    } else {
        let r = rank_by_score(items, scores);
        assert(sv.len() == iv.len());
        r
    }
}

} // verus!

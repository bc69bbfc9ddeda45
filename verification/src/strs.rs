//! Substring search, replacement and splitting on character sequences, as
//! std's `str::find`, `str::replace` and `str::split` do them: matches are
//! taken left to right and do not overlap.

use vstd::prelude::*;

use crate::chars::{chars_of, string_of};

verus! {

/// `pat` occurs in `s` at index `i`.
pub open spec fn occurs_at(s: Seq<char>, pat: Seq<char>, i: int) -> bool {
    0 <= i && i + pat.len() <= s.len() && s.subrange(i, i + pat.len()) == pat
}

/// The first index at or after `from` where `pat` occurs in `s`.
pub open spec fn first_match(s: Seq<char>, pat: Seq<char>, from: int) -> Option<int>
    decreases s.len() + 1 - from,
{
    if from + pat.len() > s.len() {
        None
    } else if occurs_at(s, pat, from) {
        Some(from)
    } else {
        first_match(s, pat, from + 1)
    }
}

/// The first match is an occurrence at or after `from`, with none before it;
/// where there is no first match, there is no occurrence at all.
pub proof fn lemma_first_match(s: Seq<char>, pat: Seq<char>, from: int)
    requires
        0 <= from,
    ensures
        match first_match(s, pat, from) {
            Some(i) => from <= i && i + pat.len() <= s.len() && occurs_at(s, pat, i) && forall|j: int|
                from <= j < i ==> !#[trigger] occurs_at(s, pat, j),
            None => forall|j: int| from <= j ==> !#[trigger] occurs_at(s, pat, j),
        },
    decreases s.len() + 1 - from,
{
    if from + pat.len() > s.len() {
    } else if occurs_at(s, pat, from) {
    } else {
        lemma_first_match(s, pat, from + 1);
    }
}

/// Whether `pat` occurs at `i` (checked character by character).
fn matches_at(s: &Vec<char>, pat: &Vec<char>, i: usize) -> (r: bool)
    ensures
        r == occurs_at(s@, pat@, i as int),
{
    let n = s.len();
    let m = pat.len();
    if i > n || m > n - i {
        return false;
    }
    let mut k: usize = 0;
    while k < m
        invariant
            n == s@.len(),
            m == pat@.len(),
            i + m <= n,
            k <= m,
            forall|q: int| 0 <= q < k ==> s@[i + q] == pat@[q],
        decreases m - k,
    {
        if s[i + k] != pat[k] {
            proof {
                assert(s@.subrange(i as int, i + pat@.len())[k as int] != pat@[k as int]);
            }
            return false;
        }
        k = k + 1;
    }
    proof {
        assert(s@.subrange(i as int, i + pat@.len()) =~= pat@);
    }
    true
}

/// The first occurrence of `pat` in `s` at or after `from`.
pub fn find_from(s: &Vec<char>, pat: &Vec<char>, from: usize) -> (r: Option<usize>)
    ensures
        match r {
            Some(i) => first_match(s@, pat@, from as int) == Some(i as int),
            None => first_match(s@, pat@, from as int) is None,
        },
        r matches Some(i) ==> from <= i && i + pat@.len() <= s@.len(),
{
    proof {
        lemma_first_match(s@, pat@, from as int);
    }
    let n = s.len();
    let m = pat.len();
    if m > n || from > n - m {
        return None;
    }
    let mut i = from;
    loop
        invariant
            n == s@.len(),
            m == pat@.len(),
            m <= n,
            from <= i <= n - m,
            first_match(s@, pat@, i as int) == first_match(s@, pat@, from as int),
        decreases n - m - i,
    {
        if matches_at(s, pat, i) {
            return Some(i);
        }
        if i == n - m {
            assert(first_match(s@, pat@, i + 1) is None);
            return None;
        }
        i = i + 1;
    }
}

/// `s[from..]` with every occurrence of the non-empty `pat`, taken left to
/// right, replaced by `rep`.
pub open spec fn replace_from(s: Seq<char>, pat: Seq<char>, rep: Seq<char>, from: int) -> Seq<char>
    recommends
        pat.len() > 0,
    decreases s.len() - from,
{
    if pat.len() == 0 || from > s.len() {
        Seq::empty()
    } else {
        match first_match(s, pat, from) {
            None => s.subrange(from, s.len() as int),
            Some(i) => if i + pat.len() <= s.len() && i >= from {
                s.subrange(from, i) + rep + replace_from(s, pat, rep, i + pat.len())
            } else {
                Seq::empty()
            },
        }
    }
}

/// `s` with every occurrence of the non-empty `pat` replaced by `rep`
/// (`str::replace`).
pub open spec fn replace_spec(s: Seq<char>, pat: Seq<char>, rep: Seq<char>) -> Seq<char> {
    replace_from(s, pat, rep, 0)
}

/// `str::replace` for a non-empty pattern.
pub fn replace(s: &str, pat: &str, rep: &str) -> (r: String)
    requires
        pat@.len() > 0,
    ensures
        r@ == replace_spec(s@, pat@, rep@),
{
    let sv = chars_of(s);
    let pv = chars_of(pat);
    let rv = chars_of(rep);
    let n = sv.len();
    let mut out: Vec<char> = Vec::new();
    let mut from: usize = 0;
    loop
        invariant
            n == sv@.len(),
            sv@ == s@,
            pv@ == pat@,
            rv@ == rep@,
            pv@.len() > 0,
            from <= n,
            out@ + replace_from(sv@, pv@, rv@, from as int) == replace_spec(sv@, pv@, rv@),
        decreases n - from,
    {
        let ghost prev_out = out@;
        match find_from(&sv, &pv, from) {
            None => {
                let mut k = from;
                while k < n
                    invariant
                        n == sv@.len(),
                        from <= k <= n,
                        out@ == prev_out + sv@.subrange(from as int, k as int),
                    decreases n - k,
                {
                    out.push(sv[k]);
                    k = k + 1;
                    proof {
                        assert(out@ =~= prev_out + sv@.subrange(from as int, k as int));
                    }
                }
                proof {
                    assert(replace_from(sv@, pv@, rv@, from as int) == sv@.subrange(from as int, n as int));
                }
                return string_of(out.as_slice());
            },
            Some(i) => {
                let mut k = from;
                while k < i
                    invariant
                        n == sv@.len(),
                        from <= k <= i,
                        i + pv@.len() <= n,
                        out@ == prev_out + sv@.subrange(from as int, k as int),
                    decreases i - k,
                {
                    out.push(sv[k]);
                    k = k + 1;
                    proof {
                        assert(out@ =~= prev_out + sv@.subrange(from as int, k as int));
                    }
                }
                let ghost mid = out@;
                let mut m: usize = 0;
                while m < rv.len()
                    invariant
                        m <= rv@.len(),
                        out@ == mid + rv@.take(m as int),
                    decreases rv.len() - m,
                {
                    out.push(rv[m]);
                    m = m + 1;
                    proof {
                        assert(out@ =~= mid + rv@.take(m as int));
                    }
                }
                proof {
                    assert(rv@.take(m as int) =~= rv@);
                    let rest = replace_from(sv@, pv@, rv@, i + pv@.len());
                    assert(replace_from(sv@, pv@, rv@, from as int) == sv@.subrange(from as int, i as int) + rv@ + rest);
                    assert(out@ + rest =~= prev_out + (sv@.subrange(from as int, i as int) + rv@ + rest));
                }
                from = i + pv.len();
            },
        }
    }
}

/// Replacing a pattern that does not occur changes nothing.
pub proof fn law_replace_absent(s: Seq<char>, pat: Seq<char>, rep: Seq<char>)
    requires
        pat.len() > 0,
        forall|i: int| !#[trigger] occurs_at(s, pat, i),
    ensures
        replace_spec(s, pat, rep) == s,
{
    lemma_first_match(s, pat, 0);
    assert(s.subrange(0, s.len() as int) =~= s);
}

/// Whether `pat` occurs in `s` (`str::contains`).
pub fn contains(s: &str, pat: &str) -> (r: bool)
    ensures
        r == (exists|i: int| #[trigger] occurs_at(s@, pat@, i)),
{
    let sv = chars_of(s);
    let pv = chars_of(pat);
    let r = find_from(&sv, &pv, 0);
    proof {
        lemma_first_match(s@, pat@, 0);
    }
    r.is_some()
}

/// The pieces of `s[from..]` between occurrences of the non-empty `pat`.
pub open spec fn split_from(s: Seq<char>, pat: Seq<char>, from: int) -> Seq<Seq<char>>
    decreases s.len() - from,
{
    if pat.len() == 0 || from > s.len() {
        Seq::empty()
    } else {
        match first_match(s, pat, from) {
            None => seq![s.subrange(from, s.len() as int)],
            Some(i) => if i + pat.len() <= s.len() && i >= from {
                seq![s.subrange(from, i)] + split_from(s, pat, i + pat.len())
            } else {
                Seq::empty()
            },
        }
    }
}

/// Splitting always gives at least one piece.
pub proof fn lemma_split_from_nonempty(s: Seq<char>, pat: Seq<char>, from: int)
    requires
        pat.len() > 0,
        0 <= from <= s.len(),
    ensures
        split_from(s, pat, from).len() >= 1,
    decreases s.len() - from,
{
    lemma_first_match(s, pat, from);
    match first_match(s, pat, from) {
        Some(i) => {
            lemma_split_from_nonempty(s, pat, i + pat.len());
        },
        None => {},
    }
}

/// The pieces joined with `sep` between them.
pub open spec fn join_with(parts: Seq<Seq<char>>, sep: Seq<char>) -> Seq<char>
    decreases parts.len(),
{
    if parts.len() == 0 {
        Seq::empty()
    } else if parts.len() == 1 {
        parts[0]
    } else {
        parts[0] + sep + join_with(parts.drop_first(), sep)
    }
}

proof fn lemma_join_split_from(s: Seq<char>, pat: Seq<char>, from: int)
    requires
        pat.len() > 0,
        0 <= from <= s.len(),
    ensures
        join_with(split_from(s, pat, from), pat) == s.subrange(from, s.len() as int),
    decreases s.len() - from,
{
    lemma_first_match(s, pat, from);
    match first_match(s, pat, from) {
        Some(i) => {
            let rest = split_from(s, pat, i + pat.len());
            lemma_join_split_from(s, pat, i + pat.len());
            lemma_split_from_nonempty(s, pat, i + pat.len());
            let parts = seq![s.subrange(from, i)] + rest;
            assert(parts.drop_first() =~= rest);
            assert(s.subrange(from, s.len() as int) =~= s.subrange(from, i) + pat + s.subrange(
                i + pat.len(),
                s.len() as int,
            ));
        },
        None => {},
    }
}

/// Splitting at a pattern and joining the pieces with it gives the string
/// back.
pub proof fn law_split_join(s: Seq<char>, pat: Seq<char>)
    requires
        pat.len() > 0,
    ensures
        join_with(split_from(s, pat, 0), pat) == s,
{
    lemma_join_split_from(s, pat, 0);
    assert(s.subrange(0, s.len() as int) =~= s);
}

/// `s` split at every occurrence of the non-empty `pat` (`str::split`).
pub fn split(s: &str, pat: &str) -> (r: Vec<String>)
    requires
        pat@.len() > 0,
    ensures
        r@.map_values(|p: String| p@) == split_from(s@, pat@, 0),
{
    let sv = chars_of(s);
    let pv = chars_of(pat);
    let n = sv.len();
    let mut out: Vec<String> = Vec::new();
    let mut from: usize = 0;
    loop
        invariant
            n == sv@.len(),
            sv@ == s@,
            pv@ == pat@,
            pv@.len() > 0,
            from <= n,
            out@.map_values(|p: String| p@) + split_from(sv@, pv@, from as int) == split_from(sv@, pv@, 0),
        decreases n - from,
    {
        let ghost prev = out@.map_values(|p: String| p@);
        match find_from(&sv, &pv, from) {
            None => {
                let piece = crate::chars::substring(sv.as_slice(), from, n);
                out.push(piece);
                proof {
                    assert(split_from(sv@, pv@, from as int) == seq![sv@.subrange(from as int, n as int)]);
                    assert(out@.map_values(|p: String| p@) =~= prev + split_from(sv@, pv@, from as int));
                }
                return out;
            },
            Some(i) => {
                let piece = crate::chars::substring(sv.as_slice(), from, i);
                out.push(piece);
                proof {
                    let rest = split_from(sv@, pv@, i + pv@.len());
                    assert(split_from(sv@, pv@, from as int) == seq![sv@.subrange(from as int, i as int)] + rest);
                    assert(out@.map_values(|p: String| p@) + rest =~= prev + split_from(sv@, pv@, from as int));
                }
                from = i + pv.len();
            },
        }
    }
}

/// `s` begins with `prefix`.
pub open spec fn starts_with_spec(s: Seq<char>, prefix: Seq<char>) -> bool {
    prefix.len() <= s.len() && s.take(prefix.len() as int) == prefix
}

/// `str::starts_with` for a string pattern.
pub fn starts_with(s: &str, prefix: &str) -> (r: bool)
    ensures
        r == starts_with_spec(s@, prefix@),
{
    let sv = chars_of(s);
    let pv = chars_of(prefix);
    if pv.len() > sv.len() {
        return false;
    }
    let mut i: usize = 0;
    while i < pv.len()
        invariant
            sv@ == s@,
            pv@ == prefix@,
            pv@.len() <= sv@.len(),
            i <= pv@.len(),
            forall|k: int| 0 <= k < i ==> sv@[k] == pv@[k],
        decreases pv.len() - i,
    {
        if sv[i] != pv[i] {
            proof {
                assert(sv@.take(pv@.len() as int)[i as int] != pv@[i as int]);
            }
            return false;
        }
        i = i + 1;
    }
    proof {
        assert(sv@.take(pv@.len() as int) =~= pv@);
    }
    true
}

} // verus!

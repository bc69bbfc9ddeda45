//! Whitespace: trimming a string and cutting it into words, as std's
//! `str::trim` and `str::split_whitespace` do, over Unicode's White_Space
//! characters.

use vstd::prelude::*;

use crate::chars::{chars_of, string_of};

verus! {

/// Whether `c` has Unicode's White_Space property (`char::is_whitespace`):
/// tab to carriage return, space, next line, no-break space, Ogham space
/// mark, the spaces from en quad to hair space, the line and paragraph
/// separators, narrow no-break space, medium mathematical space and
/// ideographic space.
pub open spec fn char_is_whitespace(c: char) -> bool {
    let u = c as u32;
    ||| 0x09 <= u <= 0x0D
    ||| u == 0x20
    ||| u == 0x85
    ||| u == 0xA0
    ||| u == 0x1680
    ||| 0x2000 <= u <= 0x200A
    ||| u == 0x2028
    ||| u == 0x2029
    ||| u == 0x202F
    ||| u == 0x205F
    ||| u == 0x3000
}

/// Whether `c` has Unicode's White_Space property.
pub fn is_whitespace(c: char) -> (r: bool)
    ensures
        r == char_is_whitespace(c),
{
    let u = c as u32;
    (0x09 <= u && u <= 0x0D) || u == 0x20 || u == 0x85 || u == 0xA0 || u == 0x1680 || (0x2000 <= u && u
        <= 0x200A) || u == 0x2028 || u == 0x2029 || u == 0x202F || u == 0x205F || u == 0x3000
}

/// `s` without its leading whitespace.
pub open spec fn trim_start_spec(s: Seq<char>) -> Seq<char>
    decreases s.len(),
{
    if s.len() > 0 && char_is_whitespace(s[0]) {
        trim_start_spec(s.drop_first())
    } else {
        s
    }
}

/// `s` without its trailing whitespace.
pub open spec fn trim_end_spec(s: Seq<char>) -> Seq<char>
    decreases s.len(),
{
    if s.len() > 0 && char_is_whitespace(s.last()) {
        trim_end_spec(s.drop_last())
    } else {
        s
    }
}

/// `s` without leading and trailing whitespace (`str::trim`).
pub open spec fn trim_spec(s: Seq<char>) -> Seq<char> {
    trim_end_spec(trim_start_spec(s))
}

/// `str::trim`.
pub fn trim(s: &str) -> (r: String)
    ensures
        r@ == trim_spec(s@),
{
    let v = chars_of(s);
    let n = v.len();
    let mut a: usize = 0;
    proof {
        assert(v@.subrange(0, n as int) =~= v@);
    }
    while a < n && is_whitespace(v[a])
        invariant
            a <= n == v@.len(),
            trim_start_spec(v@) == trim_start_spec(v@.subrange(a as int, n as int)),
        decreases n - a,
    {
        proof {
            assert(v@.subrange(a as int, n as int).drop_first() =~= v@.subrange(a + 1, n as int));
        }
        a = a + 1;
    }
    proof {
        assert(v@.subrange(0, n as int) =~= v@);
    }
    let ghost t = v@.subrange(a as int, n as int);
    assert(trim_start_spec(v@) == t);
    let mut b: usize = n;
    while b > a && is_whitespace(v[b - 1])
        invariant
            a <= b <= n == v@.len(),
            t == v@.subrange(a as int, n as int),
            trim_end_spec(t) == trim_end_spec(v@.subrange(a as int, b as int)),
        decreases b,
    {
        proof {
            assert(v@.subrange(a as int, b as int).drop_last() =~= v@.subrange(a as int, b - 1));
        }
        b = b - 1;
    }
    crate::chars::substring(v.as_slice(), a, b)
}

proof fn lemma_trim_start_front(s: Seq<char>)
    ensures
        trim_start_spec(s).len() == 0 || !char_is_whitespace(trim_start_spec(s)[0]),
    decreases s.len(),
{
    if s.len() > 0 && char_is_whitespace(s[0]) {
        lemma_trim_start_front(s.drop_first());
    }
}

proof fn lemma_trim_end_prefix(s: Seq<char>)
    ensures
        trim_end_spec(s).len() <= s.len(),
        trim_end_spec(s) == s.take(trim_end_spec(s).len() as int),
        trim_end_spec(s).len() == 0 || !char_is_whitespace(trim_end_spec(s).last()),
    decreases s.len(),
{
    if s.len() > 0 && char_is_whitespace(s.last()) {
        lemma_trim_end_prefix(s.drop_last());
        let t = trim_end_spec(s.drop_last());
        assert(s.drop_last().take(t.len() as int) =~= s.take(t.len() as int));
    } else {
        assert(s.take(s.len() as int) =~= s);
    }
}

/// Trimming twice is trimming once.
pub proof fn law_trim_idempotent(s: Seq<char>)
    ensures
        trim_spec(trim_spec(s)) == trim_spec(s),
{
    let u = trim_start_spec(s);
    let t = trim_end_spec(u);
    lemma_trim_start_front(s);
    lemma_trim_end_prefix(u);
    if t.len() > 0 {
        assert(t[0] == u[0]);
    }
    assert(trim_start_spec(t) == t);
    assert(trim_end_spec(t) == t);
}

/// The maximal runs of non-whitespace characters of `s`, in order
/// (`str::split_whitespace`).
pub open spec fn words_spec(s: Seq<char>) -> Seq<Seq<char>>
    decreases s.len(),
{
    if s.len() == 0 {
        Seq::empty()
    } else {
        let w = words_spec(s.drop_last());
        let c = s.last();
        if char_is_whitespace(c) {
            w
        } else if s.len() >= 2 && !char_is_whitespace(s[s.len() - 2]) && w.len() > 0 {
            w.update(w.len() - 1, w.last().push(c))
        } else {
            w.push(seq![c])
        }
    }
}

/// `str::split_whitespace`, collected.
pub fn split_whitespace(s: &str) -> (r: Vec<String>)
    ensures
        r@.map_values(|w: String| w@) == words_spec(s@),
{
    let v = chars_of(s);
    let n = v.len();
    let mut done: Vec<String> = Vec::new();
    let mut cur: Vec<char> = Vec::new();
    let mut in_word = false;
    let mut i: usize = 0;
    while i < n
        invariant
            n == v@.len(),
            i <= n,
            in_word == (i > 0 && !char_is_whitespace(v@[i - 1])),
            in_word ==> words_spec(v@.take(i as int)) == done@.map_values(|w: String| w@).push(cur@),
            !in_word ==> words_spec(v@.take(i as int)) == done@.map_values(|w: String| w@),
            !in_word ==> cur@.len() == 0,
        decreases n - i,
    {
        let c = v[i];
        let ws = is_whitespace(c);
        let ghost prev = done@.map_values(|w: String| w@);
        proof {
            assert(v@.take(i + 1).drop_last() =~= v@.take(i as int));
            if i > 0 {
                assert(v@.take(i + 1)[i - 1] == v@[i - 1]);
            }
        }
        if ws {
            if in_word {
                let ghost old_cur = cur@;
                let w = string_of(cur.as_slice());
                done.push(w);
                cur = Vec::new();
                proof {
                    assert(done@.map_values(|w: String| w@) =~= prev.push(old_cur));
                }
            }
            in_word = false;
        } else {
            let ghost old_cur = cur@;
            cur.push(c);
            proof {
                if in_word {
                    assert(prev.push(old_cur).update(prev.len() as int, old_cur.push(c)) =~= prev.push(cur@));
                } else {
                    assert(cur@ =~= seq![c]);
                }
            }
            in_word = true;
        }
        i = i + 1;
    }
    if in_word {
        let ghost prev = done@.map_values(|w: String| w@);
        let w = string_of(cur.as_slice());
        done.push(w);
        proof {
            assert(done@.map_values(|w: String| w@) =~= prev.push(cur@));
        }
    }
    proof {
        assert(v@.take(n as int) =~= v@);
    }
    done
}

} // verus!

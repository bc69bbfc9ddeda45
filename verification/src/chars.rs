//! Conversions between strings and character vectors, and the Unicode
//! character classes that std computes for us.

use vstd::prelude::*;

verus! {

/// Every character of `s`, in order (std's `str::chars`).
#[verifier::external_body]
pub(crate) fn chars_of(s: &str) -> (r: Vec<char>)
    ensures
        r@ == s@,
{
    s.chars().collect()
}

/// The string made of the characters of `v`, in order (std's `String::from_iter`).
#[verifier::external_body]
pub(crate) fn string_of(v: &[char]) -> (r: String)
    ensures
        r@ == v@,
{
    v.iter().collect()
}

/// Whether std counts `c` as alphanumeric (`char::is_alphanumeric`:
/// Unicode's Alphabetic property or a numeric general category).
pub uninterp spec fn char_is_alphanumeric(c: char) -> bool;

/// `char::is_alphanumeric`; claimed: its result is `char_is_alphanumeric(c)`,
/// a function of the character alone.
#[verifier::external_body]
pub(crate) fn is_alphanumeric(c: char) -> (r: bool)
    ensures
        r == char_is_alphanumeric(c),
{
    c.is_alphanumeric()
}

/// The views of some strings.
pub open spec fn views(v: Seq<String>) -> Seq<Seq<char>> {
    v.map_values(|s: String| s@)
}

/// Appends a copy of `s` to `v`.
pub fn push_str(v: &mut Vec<String>, s: &str)
    ensures
        views(final(v)@) == views(old(v)@).push(s@),
{
    v.push(s.to_owned());
    proof {
        assert(views(v@) =~= views(old(v)@).push(s@));
    }
}

/// Whether `a` and `b` hold the same characters (std's `str == str`).
#[verifier::external_body]
pub(crate) fn same_str(a: &str, b: &str) -> (r: bool)
    ensures
        r == (a@ == b@),
{
    a == b
}

/// The characters `s[from..to]` as a new string.
pub fn substring(s: &[char], from: usize, to: usize) -> (r: String)
    requires
        from <= to <= s@.len(),
    ensures
        r@ == s@.subrange(from as int, to as int),
{
    let mut v: Vec<char> = Vec::new();
    let mut i = from;
    while i < to
        invariant
            from <= i <= to <= s@.len(),
            v@ == s@.subrange(from as int, i as int),
        decreases to - i,
    {
        v.push(s[i]);
        i = i + 1;
    }
    string_of(v.as_slice())
}

/// The number of bytes that std's UTF-8 encoding gives `c` (`char::len_utf8`).
pub open spec fn char_width(c: char) -> nat {
    if (c as u32) < 0x80 {
        1
    } else if (c as u32) < 0x800 {
        2
    } else if (c as u32) < 0x10000 {
        3
    } else {
        4
    }
}

/// The length in bytes of the UTF-8 encoding of `s`.
pub open spec fn utf8_len(s: Seq<char>) -> nat
    decreases s.len(),
{
    if s.len() == 0 {
        0
    } else {
        utf8_len(s.drop_last()) + char_width(s.last())
    }
}

/// A UTF-8 length is at most four bytes a character.
pub proof fn lemma_utf8_len_bound(s: Seq<char>)
    ensures
        utf8_len(s) <= 4 * s.len(),
        utf8_len(s) >= s.len(),
    decreases s.len(),
{
    if s.len() > 0 {
        lemma_utf8_len_bound(s.drop_last());
    }
}

/// A longer prefix has a longer encoding.
pub proof fn lemma_utf8_len_prefix_mono(s: Seq<char>, i: int, j: int)
    requires
        0 <= i <= j <= s.len(),
    ensures
        utf8_len(s.take(i)) <= utf8_len(s.take(j)),
    decreases j - i,
{
    if i < j {
        lemma_utf8_len_prefix_mono(s, i, j - 1);
        assert(s.take(j).drop_last() =~= s.take(j - 1));
    }
}

/// The encoding of two strings one after the other is as long as both.
pub proof fn lemma_utf8_len_concat(a: Seq<char>, b: Seq<char>)
    ensures
        utf8_len(a + b) == utf8_len(a) + utf8_len(b),
    decreases b.len(),
{
    if b.len() == 0 {
        assert(a + b =~= a);
    } else {
        lemma_utf8_len_concat(a, b.drop_last());
        assert((a + b).drop_last() =~= a + b.drop_last());
        assert((a + b).last() == b.last());
    }
}

/// `char::len_utf8`.
pub fn char_len_utf8(c: char) -> (r: usize)
    ensures
        r == char_width(c),
{
    let u = c as u32;
    if u < 0x80 {
        1
    } else if u < 0x800 {
        2
    } else if u < 0x10000 {
        3
    } else {
        4
    }
}

/// The byte length of the UTF-8 encoding of the first `k` characters of
/// `s` (all of them when `k` is past the end).
pub fn utf8_prefix_len(s: &[char], k: usize) -> (r: usize)
    requires
        s@.len() <= usize::MAX / 4,
    ensures
        r == utf8_len(s@.take(if k < s@.len() { k as int } else { s@.len() as int })),
{
    let n = if k < s.len() {
        k
    } else {
        s.len()
    };
    let mut total: usize = 0;
    let mut i: usize = 0;
    while i < n
        invariant
            n <= s@.len() <= usize::MAX / 4,
            i <= n,
            total == utf8_len(s@.take(i as int)),
        decreases n - i,
    {
        proof {
            lemma_utf8_len_bound(s@.take(i as int));
            assert(s@.take(i + 1).drop_last() =~= s@.take(i as int));
        }
        total = total + char_len_utf8(s[i]);
        i = i + 1;
    }
    total
}

/// `a` followed by `b`, as a new string.
pub fn str_concat(a: &str, b: &str) -> (r: String)
    ensures
        r@ == a@ + b@,
{
    let mut v = chars_of(a);
    let mut w = chars_of(b);
    v.append(&mut w);
    string_of(v.as_slice())
}

/// Every character of `s` is ASCII.
pub open spec fn all_ascii(s: Seq<char>) -> bool {
    forall|i: int| 0 <= i < s.len() ==> (#[trigger] s[i] as u32) < 128
}

/// `c` with an ASCII capital turned into its small letter.
pub open spec fn ascii_lower_char(c: char) -> char {
    if 'A' <= c && c <= 'Z' {
        ((c as u32) + 32) as char
    } else {
        c
    }
}

/// `c` with an ASCII small letter turned into its capital.
pub open spec fn ascii_upper_char(c: char) -> char {
    if 'a' <= c && c <= 'z' {
        ((c as u32) - 32) as char
    } else {
        c
    }
}

/// `s` with every ASCII capital turned small.
pub open spec fn ascii_lower(s: Seq<char>) -> Seq<char> {
    s.map_values(|c: char| ascii_lower_char(c))
}

/// `s` with every ASCII small letter turned capital.
pub open spec fn ascii_upper(s: Seq<char>) -> Seq<char> {
    s.map_values(|c: char| ascii_upper_char(c))
}

/// `char::to_ascii_lowercase`.
pub fn to_ascii_lowercase(c: char) -> (r: char)
    ensures
        r == ascii_lower_char(c),
{
    if 'A' <= c && c <= 'Z' {
        let b = c as u8;
        (b + 32) as char
    } else {
        c
    }
}

/// The lower-case form of `s` under Unicode's rules (`str::to_lowercase`).
pub uninterp spec fn lower_case(s: Seq<char>) -> Seq<char>;

/// `str::to_lowercase`; claimed: its result is `lower_case(s)`, a function
/// of the string alone, and on ASCII text it only turns capitals small (the
/// Unicode mappings of the ASCII letters). Unicode's case mapping beyond
/// ASCII is not stated.
#[verifier::external_body]
pub(crate) fn to_lowercase(s: &str) -> (r: String)
    ensures
        r@ == lower_case(s@),
        all_ascii(s@) ==> r@ == ascii_lower(s@),
{
    s.to_lowercase()
}

/// The upper-case form of `s` under Unicode's rules (`str::to_uppercase`).
pub uninterp spec fn upper_case(s: Seq<char>) -> Seq<char>;

/// `str::to_uppercase`; claimed: its result is `upper_case(s)`, a function
/// of the string alone, and on ASCII text it only turns small letters
/// capital (the Unicode mappings of the ASCII letters). Unicode's case
/// mapping beyond ASCII is not stated.
#[verifier::external_body]
pub(crate) fn to_uppercase(s: &str) -> (r: String)
    ensures
        r@ == upper_case(s@),
        all_ascii(s@) ==> r@ == ascii_upper(s@),
{
    s.to_uppercase()
}

/// The bytes of `b` decoded as UTF-8, or `None` where they are not valid
/// UTF-8 (`String::from_utf8`).
pub uninterp spec fn utf8_decode(b: Seq<u8>) -> Option<Seq<char>>;

/// `String::from_utf8`; claimed: its result is `utf8_decode(b)`, a function
/// of the bytes alone. The UTF-8 decoding itself is not stated.
#[verifier::external_body]
pub(crate) fn string_from_utf8(b: &Vec<u8>) -> (r: Option<String>)
    ensures
        match r {
            Some(s) => utf8_decode(b@) == Some(s@),
            None => utf8_decode(b@) is None,
        },
{
    String::from_utf8(b.clone()).ok()
}

} // verus!

//! Decimal numbers as text: printing an unsigned integer the way `{}` does,
//! reading one the way `u64::from_str` does, and right-aligning text the
//! way `{: >N}` does.

use vstd::prelude::*;

use crate::chars::{chars_of, string_of};

verus! {

/// The ASCII digit for `d`, which is below ten.
pub open spec fn digit_char(d: nat) -> char {
    if d == 0 {
        '0'
    } else if d == 1 {
        '1'
    } else if d == 2 {
        '2'
    } else if d == 3 {
        '3'
    } else if d == 4 {
        '4'
    } else if d == 5 {
        '5'
    } else if d == 6 {
        '6'
    } else if d == 7 {
        '7'
    } else if d == 8 {
        '8'
    } else {
        '9'
    }
}

/// The value of an ASCII digit, or `None` for any other character.
pub open spec fn digit_value(c: char) -> Option<nat> {
    if '0' <= c && c <= '9' {
        Some((c as u32 - '0' as u32) as nat)
    } else {
        None
    }
}

/// `n` written in decimal, without sign or leading zeros.
pub open spec fn decimal_spec(n: nat) -> Seq<char>
    decreases n,
{
    if n < 10 {
        seq![digit_char(n)]
    } else {
        decimal_spec(n / 10).push(digit_char(n % 10))
    }
}

fn digit_of(d: u64) -> (c: char)
    requires
        d < 10,
    ensures
        c == digit_char(d as nat),
{
    match d {
        0 => '0',
        1 => '1',
        2 => '2',
        3 => '3',
        4 => '4',
        5 => '5',
        6 => '6',
        7 => '7',
        8 => '8',
        _ => '9',
    }
}

fn push_decimal(n: u64, out: &mut Vec<char>)
    ensures
        final(out)@ == old(out)@ + decimal_spec(n as nat),
    decreases n,
{
    if n >= 10 {
        push_decimal(n / 10, out);
    }
    out.push(digit_of(n % 10));
}

/// `n` as `format!("{}", n)` writes it.
pub fn decimal(n: u64) -> (r: String)
    ensures
        r@ == decimal_spec(n as nat),
{
    let mut v: Vec<char> = Vec::new();
    push_decimal(n, &mut v);
    proof {
        assert(v@ =~= decimal_spec(n as nat));
    }
    string_of(v.as_slice())
}

/// Whether every character of `s` is an ASCII digit.
pub open spec fn all_digits(s: Seq<char>) -> bool {
    forall|i: int| 0 <= i < s.len() ==> (#[trigger] digit_value(s[i])) is Some
}

/// The value of a string of ASCII digits.
pub open spec fn digits_value(s: Seq<char>) -> nat
    decreases s.len(),
{
    if s.len() == 0 {
        0
    } else {
        digits_value(s.drop_last()) * 10 + match digit_value(s.last()) {
            Some(d) => d,
            None => 0,
        }
    }
}

/// The digits that `u64::from_str` reads: all of `s` but a leading `+`.
pub open spec fn unsigned_digits(s: Seq<char>) -> Seq<char> {
    if s.len() > 0 && s[0] == '+' {
        s.drop_first()
    } else {
        s
    }
}

/// What `u64::from_str` gives for `s`: an optional `+`, then at least one
/// ASCII digit and nothing else, with a value that fits in 64 bits.
pub open spec fn parse_u64_spec(s: Seq<char>) -> Option<u64> {
    let d = unsigned_digits(s);
    if d.len() > 0 && all_digits(d) && digits_value(d) <= u64::MAX {
        Some(digits_value(d) as u64)
    } else {
        None
    }
}

/// Adding a digit never lowers the value.
pub proof fn lemma_digits_value_prefix(s: Seq<char>, i: int)
    requires
        0 <= i <= s.len(),
        all_digits(s),
    ensures
        digits_value(s.take(i)) <= digits_value(s),
    decreases s.len() - i,
{
    if i < s.len() {
        lemma_digits_value_prefix(s, i + 1);
        assert(s.take(i + 1).drop_last() =~= s.take(i));
        assert(digit_value(s[i]) is Some);
    } else {
        assert(s.take(i) =~= s);
    }
}

/// `u64::from_str`: `None` where std gives an error.
pub fn parse_u64(s: &str) -> (r: Option<u64>)
    ensures
        r == parse_u64_spec(s@),
{
    let v = chars_of(s);
    let n = v.len();
    let start: usize = if n > 0 && v[0] == '+' {
        1
    } else {
        0
    };
    let ghost d = unsigned_digits(s@);
    proof {
        assert(d =~= v@.subrange(start as int, n as int));
    }
    if start >= n {
        return None;
    }
    let mut acc: u64 = 0;
    let mut i = start;
    while i < n
        invariant
            v@ == s@,
            n == v@.len(),
            start <= i <= n,
            d == unsigned_digits(s@),
            d == v@.subrange(start as int, n as int),
            all_digits(d.take(i - start)),
            acc == digits_value(d.take(i - start)),
        decreases n - i,
    {
        let c = v[i];
        proof {
            assert(d.take(i + 1 - start).drop_last() =~= d.take(i - start));
            assert(d[i - start] == c);
        }
        if c < '0' || c > '9' {
            proof {
                assert(digit_value(d[i - start]) is None);
            }
            return None;
        }
        let dv = (c as u32 - '0' as u32) as u64;
        assert(digit_value(c) == Some(dv as nat));
        match acc.checked_mul(10) {
            None => {
                proof {
                    assert(all_digits(d.take(i + 1 - start)));
                    lemma_all_digits_whole(d, i + 1 - start);
                }
                return None;
            },
            Some(m) => match m.checked_add(dv) {
                None => {
                    proof {
                        assert(all_digits(d.take(i + 1 - start)));
                        lemma_all_digits_whole(d, i + 1 - start);
                    }
                    return None;
                },
                Some(a) => {
                    acc = a;
                },
            },
        }
        i = i + 1;
        proof {
            assert(all_digits(d.take(i - start)));
        }
    }
    proof {
        assert(d.take(n - start) =~= d);
    }
    Some(acc)
}

/// Where the digits run on to the end, either all of `d` is digits, or a
/// later non-digit makes the value irrelevant; this settles which.
proof fn lemma_all_digits_whole(d: Seq<char>, k: int)
    requires
        0 <= k <= d.len(),
        all_digits(d.take(k)),
    ensures
        all_digits(d) ==> digits_value(d.take(k)) <= digits_value(d),
{
    if all_digits(d) {
        lemma_digits_value_prefix(d, k);
    }
}

/// A digit reads back as its value.
proof fn lemma_digit_roundtrip(d: nat)
    requires
        d < 10,
    ensures
        digit_value(digit_char(d)) == Some(d),
{
    if d == 0 {
    } else if d == 1 {
    } else if d == 2 {
    } else if d == 3 {
    } else if d == 4 {
    } else if d == 5 {
    } else if d == 6 {
    } else if d == 7 {
    } else if d == 8 {
    } else {
    }
}

/// `n` in decimal is a non-empty string of digits worth `n`.
proof fn lemma_decimal_digits(n: nat)
    ensures
        decimal_spec(n).len() > 0,
        all_digits(decimal_spec(n)),
        digits_value(decimal_spec(n)) == n,
    decreases n,
{
    lemma_digit_roundtrip(n % 10);
    if n >= 10 {
        lemma_decimal_digits(n / 10);
        let s = decimal_spec(n / 10);
        let t = s.push(digit_char(n % 10));
        assert(t.drop_last() =~= s);
        assert forall|i: int| 0 <= i < t.len() implies (#[trigger] digit_value(t[i])) is Some by {
            if i < s.len() {
                assert(t[i] == s[i]);
            }
        }
        assert(t.last() == digit_char(n % 10));
        assert(digits_value(t) == digits_value(s) * 10 + (n % 10));
        assert((n / 10) * 10 + n % 10 == n);
    } else {
        assert(decimal_spec(n) =~= seq![digit_char(n)]);
        assert(seq![digit_char(n)].drop_last() =~= Seq::<char>::empty());
        assert(digits_value(seq![digit_char(n)]) == digits_value(Seq::<char>::empty()) * 10 + n);
    }
}

/// Reading a number back: `u64::from_str` gives back any `u64` that `{}`
/// printed.
pub proof fn law_parse_decimal(n: u64)
    ensures
        parse_u64_spec(decimal_spec(n as nat)) == Some(n),
{
    lemma_decimal_digits(n as nat);
    let s = decimal_spec(n as nat);
    assert(digit_value(s[0]) is Some);
    assert(unsigned_digits(s) == s);
}

/// `n` spaces.
pub open spec fn spaces(n: nat) -> Seq<char> {
    Seq::new(n, |i: int| ' ')
}

/// `s` right-aligned in a field of `width` characters (`{: >width}`).
pub open spec fn pad_start_spec(s: Seq<char>, width: nat) -> Seq<char> {
    if s.len() >= width {
        s
    } else {
        spaces((width - s.len()) as nat) + s
    }
}

/// `format!("{: >width$}", s)`: spaces before `s` up to `width` characters.
pub fn pad_start(s: &str, width: usize) -> (r: String)
    ensures
        r@ == pad_start_spec(s@, width as nat),
{
    let v = chars_of(s);
    if v.len() >= width {
        return string_of(v.as_slice());
    }
    let fill = width - v.len();
    let mut out: Vec<char> = Vec::new();
    let mut i: usize = 0;
    while i < fill
        invariant
            i <= fill,
            out@ == spaces(i as nat),
        decreases fill - i,
    {
        out.push(' ');
        i = i + 1;
        proof {
            assert(out@ =~= spaces(i as nat));
        }
    }
    let mut k: usize = 0;
    while k < v.len()
        invariant
            k <= v@.len(),
            out@ == spaces(fill as nat) + v@.take(k as int),
        decreases v.len() - k,
    {
        out.push(v[k]);
        k = k + 1;
        proof {
            assert(out@ =~= spaces(fill as nat) + v@.take(k as int));
        }
    }
    proof {
        assert(v@.take(k as int) =~= v@);
    }
    string_of(out.as_slice())
}

} // verus!

//! Icon names and the files they are drawn from: `ArrowUpRight` is drawn
//! from `icons/arrow-up-right.svg`.

use vstd::prelude::*;

use crate::chars::{all_ascii, ascii_lower_char, chars_of, str_concat, string_of, to_ascii_lowercase};

verus! {

/// Whether `c` is upper-case under Unicode's rules (`char::is_uppercase`).
pub uninterp spec fn char_is_uppercase(c: char) -> bool;

/// Whether `c` is numeric under Unicode's rules (`char::is_numeric`).
pub uninterp spec fn char_is_numeric(c: char) -> bool;

/// `char::is_uppercase`; claimed: its result is `char_is_uppercase(c)`, a
/// property of the character alone, which holds of the ASCII capitals and
/// of no other ASCII character (Unicode's Uppercase property).
#[verifier::external_body]
fn is_uppercase(c: char) -> (r: bool)
    ensures
        r == char_is_uppercase(c),
        (c as u32) < 128 ==> (r <==> ('A' <= c <= 'Z')),
{
    c.is_uppercase()
}

/// `char::is_numeric`; claimed: its result is `char_is_numeric(c)`, a
/// property of the character alone, which holds of the ASCII digits and of
/// no other ASCII character (Unicode's numeric general categories).
#[verifier::external_body]
fn is_numeric(c: char) -> (r: bool)
    ensures
        r == char_is_numeric(c),
        (c as u32) < 128 ==> (r <==> ('0' <= c <= '9')),
{
    c.is_numeric()
}

/// `s` in kebab case: a `-` before each upper-case or numeric character
/// but the first, which is made ASCII lower-case.
pub open spec fn kebab_spec(s: Seq<char>) -> Seq<char>
    decreases s.len(),
{
    if s.len() == 0 {
        Seq::empty()
    } else {
        let prev = kebab_spec(s.drop_last());
        let c = s.last();
        if char_is_uppercase(c) || char_is_numeric(c) {
            if prev.len() > 0 {
                prev + seq!['-', ascii_lower_char(c)]
            } else {
                seq![ascii_lower_char(c)]
            }
        } else {
            prev.push(c)
        }
    }
}

/// An ASCII name in kebab case: a `-` before each capital or digit but the
/// first, capitals made small; every other character kept.
pub open spec fn kebab_ascii_spec(s: Seq<char>) -> Seq<char>
    decreases s.len(),
{
    if s.len() == 0 {
        Seq::empty()
    } else {
        let prev = kebab_ascii_spec(s.drop_last());
        let c = s.last();
        if ('A' <= c <= 'Z') || ('0' <= c <= '9') {
            if prev.len() > 0 {
                prev + seq!['-', ascii_lower_char(c)]
            } else {
                seq![ascii_lower_char(c)]
            }
        } else {
            prev.push(c)
        }
    }
}

/// A name in kebab case (`ArrowUpRight` becomes `arrow-up-right`).
pub fn to_kebap(s: &str) -> (r: String)
    ensures
        r@ == kebab_spec(s@),
        all_ascii(s@) ==> r@ == kebab_ascii_spec(s@),
{
    let v = chars_of(s);
    let mut out: Vec<char> = Vec::new();
    let mut i: usize = 0;
    while i < v.len()
        invariant
            i <= v@.len(),
            v@ == s@,
            out@ == kebab_spec(v@.take(i as int)),
            all_ascii(s@) ==> out@ == kebab_ascii_spec(v@.take(i as int)),
        decreases v.len() - i,
    {
        let c = v[i];
        proof {
            assert(v@.take(i + 1).drop_last() =~= v@.take(i as int));
            assert(v@.take(i + 1).last() == c);
        }
        let ghost prev = out@;
        proof {
            if all_ascii(s@) {
                assert((v@[i as int] as u32) < 128);
            }
        }
        if is_uppercase(c) || is_numeric(c) {
            if out.len() > 0 {
                out.push('-');
            }
            out.push(to_ascii_lowercase(c));
            proof {
                if prev.len() > 0 {
                    assert(out@ =~= prev + seq!['-', ascii_lower_char(c)]);
                } else {
                    assert(out@ =~= seq![ascii_lower_char(c)]);
                }
            }
        } else {
            out.push(c);
        }
        i = i + 1;
    }
    proof {
        assert(v@.take(i as int) =~= v@);
    }
    string_of(out.as_slice())
}

/// The file an icon named `name` is drawn from.
pub open spec fn icon_path_spec(name: Seq<char>) -> Seq<char> {
    "icons/"@ + kebab_spec(name) + ".svg"@
}

/// The file an icon named `name` is drawn from.
pub fn icon_path(name: &str) -> (r: String)
    ensures
        r@ == icon_path_spec(name@),
        all_ascii(name@) ==> r@ == "icons/"@ + kebab_ascii_spec(name@) + ".svg"@,
{
    let k = to_kebap(name);
    let a = str_concat("icons/", k.as_str());
    str_concat(a.as_str(), ".svg")
}

} // verus!

//! The single-line text input that drives every view: its text, the
//! selection (counted in characters), and what each key press does to them.

use std::ops::Range;

use vstd::prelude::*;

use crate::chars::{char_width, chars_of, string_of, substring, utf8_len, utf8_prefix_len};
use crate::keys::{KeyDownEvent, Keystroke};

verus! {

/// `i`, or `n` when `i` is past it.
pub open spec fn clamp(i: int, n: int) -> int {
    if i < n {
        i
    } else {
        n
    }
}

/// `t` with its characters `s..e` (each bound clamped to the end of `t`)
/// replaced by `ins`.
pub open spec fn splice(t: Seq<char>, s: int, e: int, ins: Seq<char>) -> Seq<char> {
    t.take(clamp(s, t.len() as int)) + ins + t.skip(clamp(e, t.len() as int))
}

/// What a key press asks of the view around the input.
#[derive(Clone, Debug)]
pub struct KeyOutcome {
    /// Text to write to the clipboard.
    pub copy: Option<String>,
    /// The clipboard's text should be read and handed to `TextView::paste`.
    pub paste: bool,
    /// The input asks to go back (backspace in an empty input).
    pub back: bool,
    /// The text changed, so an input event is due.
    pub changed: bool,
}

/// The state of a text input.
pub struct TextView {
    pub text: String,
    /// The selected characters; an empty range is the cursor.
    pub selection: Range<usize>,
    /// The word last clicked and how many times in a row.
    pub word_click: (usize, u16),
    pub placeholder: String,
    /// Whether the text is a password, shown as dots and not copied.
    pub masked: bool,
}

fn no_outcome() -> (r: KeyOutcome)
    ensures
        r.copy is None,
        !r.paste,
        !r.back,
        !r.changed,
{
    KeyOutcome { copy: None, paste: false, back: false, changed: false }
}

/// `t[..s] + ins + t[e..]` with both bounds clamped to the end of `t`.
fn splice_chars(t: &Vec<char>, s: usize, e: usize, ins: &[char]) -> (r: Vec<char>)
    requires
        s <= e,
    ensures
        r@ == splice(t@, s as int, e as int, ins@),
{
    let n = t.len();
    let a = if s < n {
        s
    } else {
        n
    };
    let b = if e < n {
        e
    } else {
        n
    };
    let mut r: Vec<char> = Vec::new();
    let mut i: usize = 0;
    while i < a
        invariant
            i <= a <= n == t@.len(),
            r@ == t@.take(i as int),
        decreases a - i,
    {
        r.push(t[i]);
        i = i + 1;
    }
    let mut j: usize = 0;
    while j < ins.len()
        invariant
            j <= ins@.len(),
            r@ == t@.take(a as int) + ins@.take(j as int),
        decreases ins.len() - j,
    {
        r.push(ins[j]);
        j = j + 1;
        proof {
            assert(ins@.take(j as int) =~= ins@.take(j - 1) + seq![ins@[j - 1]]);
        }
    }
    let mut k: usize = b;
    while k < n
        invariant
            b <= k <= n == t@.len(),
            r@ == t@.take(a as int) + ins@ + t@.subrange(b as int, k as int),
        decreases n - k,
    {
        r.push(t[k]);
        k = k + 1;
        proof {
            assert(t@.subrange(b as int, k as int) =~= t@.subrange(b as int, k - 1) + seq![t@[k - 1]]);
        }
    }
    proof {
        assert(ins@.take(ins@.len() as int) =~= ins@);
        assert(t@.subrange(b as int, n as int) =~= t@.skip(b as int));
    }
    r
}

/// Maximal runs of word characters: `runs[k]` is the character range
/// `(start, end)` of the k-th word of `t`, in order, and every word
/// character of `t` lies in one of them.
pub open spec fn is_word_runs(t: Seq<char>, runs: Seq<(int, int)>) -> bool {
    &&& forall|k: int|
        0 <= k < runs.len() ==> {
            let (a, b) = #[trigger] runs[k];
            &&& 0 <= a < b <= t.len()
            &&& forall|i: int| a <= i < b ==> is_word_char(#[trigger] t[i])
            &&& a == 0 || !is_word_char(t[a - 1])
            &&& b == t.len() || !is_word_char(t[b])
        }
    &&& forall|k: int, l: int| 0 <= k < l < runs.len() ==> (#[trigger] runs[k]).1 < (#[trigger] runs[l]).0
    &&& forall|i: int|
        0 <= i < t.len() && is_word_char(#[trigger] t[i]) ==> exists|k: int|
            0 <= k < runs.len() && (#[trigger] runs[k]).0 <= i < runs[k].1
}

/// A character that words are made of: alphanumeric or `_`.
pub open spec fn is_word_char(c: char) -> bool {
    crate::chars::char_is_alphanumeric(c) || c == '_'
}


/// The longest text an input holds: its UTF-8 encoding, and the dots a
/// masked input shows for it, must have lengths that fit a `usize`.
pub open spec fn max_text_len() -> int {
    (usize::MAX / 16) as int
}

/// The selection of `v` is `a..b`.
pub open spec fn sel_is(v: TextView, a: int, b: int) -> bool {
    v.selection.start == a && v.selection.end == b
}

/// Nothing to copy, no clipboard to read, no going back.
pub open spec fn quiet(r: KeyOutcome) -> bool {
    r.copy is None && !r.paste && !r.back
}

/// The text and the selection stay as they were.
pub open spec fn unmoved(old: TextView, new: TextView) -> bool {
    new.text@ == old.text@ && new.selection == old.selection
}

/// The key presses that `on_key_down` takes: copying or cutting needs the
/// selection within the text (std panics slicing past it), and an insertion
/// must keep the cursor and the text within the machine's limits.
pub open spec fn key_down_allowed(old: TextView, ev: KeyDownEvent, macos: bool) -> bool {
    let t = old.text@;
    let s = old.selection.start as int;
    let e = old.selection.end as int;
    let ks = ev.keystroke;
    let key = ks.key@;
    if ks.modifiers.secondary_spec(macos) {
        ((key == "c"@ && !old.masked) || key == "x"@) ==> e <= t.len()
    } else if ks.ime_key is Some {
        let k = ks.ime_key->0@;
        s + k.len() <= usize::MAX && t.len() + k.len() <= max_text_len()
    } else if key == "enter"@ && ks.modifiers.shift {
        s + 1 <= usize::MAX && t.len() + 1 <= max_text_len()
    } else {
        true
    }
}

/// What a key press does to an input.
///
/// With the shortcut modifier (`Modifiers::secondary`): `a` selects all,
/// `c` copies the selection (unless the input is masked), `v` asks for the
/// clipboard, `x` cuts the selection. Otherwise input-method text replaces
/// the selection; `left` and `right` move the cursor (a selection collapses
/// to its near end); `backspace` in an empty input goes back, otherwise it
/// deletes the selection or the character before the cursor; shift-`enter`
/// inserts a line break.
pub open spec fn key_down_effect(old: TextView, ev: KeyDownEvent, macos: bool, new: TextView, r: KeyOutcome) -> bool {
    let t = old.text@;
    let n = t.len() as int;
    let s = old.selection.start as int;
    let e = old.selection.end as int;
    let ks = ev.keystroke;
    let key = ks.key@;
    if ks.modifiers.secondary_spec(macos) {
        if key == "a"@ {
            new.text@ == t && sel_is(new, 0, n) && quiet(r)
        } else if key == "c"@ {
            &&& unmoved(old, new)
            &&& !r.paste && !r.back
            &&& if old.masked {
                r.copy is None
            } else {
                r.copy is Some && r.copy->0@ == t.subrange(s, e)
            }
        } else if key == "v"@ {
            unmoved(old, new) && r.paste && r.copy is None && !r.back
        } else if key == "x"@ {
            &&& new.text@ == splice(t, s, e, Seq::empty())
            &&& sel_is(new, s, s)
            &&& r.copy is Some && r.copy->0@ == t.subrange(s, e)
            &&& !r.paste && !r.back
        } else {
            unmoved(old, new) && quiet(r)
        }
    } else if ks.ime_key is Some {
        let k = ks.ime_key->0@;
        new.text@ == splice(t, s, e, k) && sel_is(new, s + k.len(), s + k.len()) && quiet(r)
    } else if key == "left"@ {
        &&& new.text@ == t
        &&& quiet(r)
        &&& if s > 0 {
            let i = if s == e {
                s - 1
            } else {
                s
            };
            sel_is(new, i, i)
        } else {
            sel_is(new, s, e)
        }
    } else if key == "right"@ {
        &&& new.text@ == t
        &&& quiet(r)
        &&& if e < utf8_len(t) {
            let i = if s == e {
                e + 1
            } else {
                e
            };
            sel_is(new, i, i)
        } else {
            sel_is(new, s, e)
        }
    } else if key == "backspace"@ {
        if n == 0 && !ev.is_held {
            unmoved(old, new) && r.back && r.copy is None && !r.paste
        } else if s == e && s > 0 {
            let i = clamp(s - 1, n);
            new.text@ == t.take(i) + t.skip(clamp(e, n)) && sel_is(new, i, i) && quiet(r)
        } else {
            new.text@ == splice(t, s, e, Seq::empty()) && sel_is(new, s, s) && quiet(r)
        }
    } else if key == "enter"@ && ks.modifiers.shift {
        new.text@ == splice(t, s, s, seq!['\n']) && sel_is(new, s + 1, s + 1) && quiet(r)
    } else {
        unmoved(old, new) && quiet(r)
    }
}

/// A key press of `key` typing the text `typed`, with no launcher modifier.
pub open spec fn types(ev: KeyDownEvent, typed: Seq<char>, macos: bool) -> bool {
    &&& !ev.keystroke.modifiers.secondary_spec(macos)
    &&& ev.keystroke.ime_key matches Some(k) && k@ == typed
}

/// A press of backspace, not held, with no launcher modifier.
pub open spec fn is_backspace(ev: KeyDownEvent, macos: bool) -> bool {
    &&& !ev.keystroke.modifiers.secondary_spec(macos)
    &&& ev.keystroke.ime_key is None
    &&& ev.keystroke.key@ == "backspace"@
    &&& !ev.is_held
}

/// A press of the launcher modifier with `key`.
pub open spec fn is_command(ev: KeyDownEvent, key: Seq<char>, macos: bool) -> bool {
    ev.keystroke.modifiers.secondary_spec(macos) && ev.keystroke.key@ == key
}

/// A press of `key` alone: no launcher modifier, no input-method text.
pub open spec fn is_bare_key(ev: KeyDownEvent, key: Seq<char>, macos: bool) -> bool {
    &&& !ev.keystroke.modifiers.secondary_spec(macos)
    &&& ev.keystroke.ime_key is None
    &&& ev.keystroke.key@ == key
}

/// Pressing right with the cursor collapsed before the end of the text
/// moves it one place right and keeps the text.
pub proof fn law_right_moves_one(old: TextView, ev: KeyDownEvent, macos: bool, new: TextView, r: KeyOutcome)
    requires
        is_bare_key(ev, "right"@, macos),
        old.selection.start == old.selection.end,
        old.selection.end < utf8_len(old.text@),
        key_down_effect(old, ev, macos, new, r),
    ensures
        new.text@ == old.text@,
        new.selection.start == old.selection.end + 1,
        new.selection.end == old.selection.end + 1,
        quiet(r),
{
    reveal_strlit("right");
    reveal_strlit("left");
    reveal_strlit("backspace");
    reveal_strlit("enter");
    assert("right"@[0] == 'r' && "left"@[0] == 'l' && "backspace"@[0] == 'b' && "enter"@[0] == 'e');
    assert("right"@ != "left"@);
}

/// Pressing left with the cursor collapsed after the start moves it one
/// place left and keeps the text.
pub proof fn law_left_moves_one(old: TextView, ev: KeyDownEvent, macos: bool, new: TextView, r: KeyOutcome)
    requires
        is_bare_key(ev, "left"@, macos),
        old.selection.start == old.selection.end,
        old.selection.start > 0,
        key_down_effect(old, ev, macos, new, r),
    ensures
        new.text@ == old.text@,
        new.selection.start == old.selection.start - 1,
        new.selection.end == old.selection.start - 1,
        quiet(r),
{
    reveal_strlit("left");
}

/// Right then left, from a collapsed cursor before the end of the text,
/// brings the cursor back where it was, the text unchanged.
pub proof fn law_right_then_left(
    v0: TextView,
    ev1: KeyDownEvent,
    v1: TextView,
    r1: KeyOutcome,
    ev2: KeyDownEvent,
    v2: TextView,
    r2: KeyOutcome,
    macos: bool,
)
    requires
        v0.selection.start == v0.selection.end,
        v0.selection.end < utf8_len(v0.text@),
        is_bare_key(ev1, "right"@, macos),
        key_down_effect(v0, ev1, macos, v1, r1),
        is_bare_key(ev2, "left"@, macos),
        key_down_effect(v1, ev2, macos, v2, r2),
    ensures
        v2.text@ == v0.text@,
        v2.selection == v0.selection,
{
    law_right_moves_one(v0, ev1, macos, v1, r1);
    law_left_moves_one(v1, ev2, macos, v2, r2);
}

/// Typing one character at the cursor and then pressing backspace leaves
/// the input as it was.
pub proof fn law_type_then_backspace(
    v0: TextView,
    c: char,
    ev1: KeyDownEvent,
    v1: TextView,
    r1: KeyOutcome,
    ev2: KeyDownEvent,
    v2: TextView,
    r2: KeyOutcome,
    macos: bool,
)
    requires
        v0.selection.start == v0.selection.end,
        v0.selection.end <= v0.text@.len(),
        types(ev1, seq![c], macos),
        key_down_effect(v0, ev1, macos, v1, r1),
        is_backspace(ev2, macos),
        key_down_effect(v1, ev2, macos, v2, r2),
    ensures
        v2.text@ == v0.text@,
        v2.selection == v0.selection,
        quiet(r1) && quiet(r2),
{
    reveal_strlit("backspace");
    reveal_strlit("left");
    reveal_strlit("right");
    reveal_strlit("enter");
    assert("backspace"@[0] == 'b' && "left"@[0] == 'l' && "right"@[0] == 'r' && "enter"@[0] == 'e');
    assert("backspace"@ != "left"@ && "backspace"@ != "right"@ && "backspace"@ != "enter"@);
    let t = v0.text@;
    let s = v0.selection.start as int;
    assert(v1.text@ == splice(t, s, s, seq![c]));
    assert(v1.text@ =~= t.take(s) + seq![c] + t.skip(s));
    let t1 = v1.text@;
    assert(t1.len() == t.len() + 1);
    assert(t1.take(s) =~= t.take(s));
    assert(t1.skip(s + 1) =~= t.skip(s));
    assert(v2.text@ =~= t);
}

/// Selecting everything and cutting it empties the input and puts its
/// whole text on the clipboard.
pub proof fn law_select_all_then_cut(
    v0: TextView,
    ev1: KeyDownEvent,
    v1: TextView,
    r1: KeyOutcome,
    ev2: KeyDownEvent,
    v2: TextView,
    r2: KeyOutcome,
    macos: bool,
)
    requires
        is_command(ev1, "a"@, macos),
        key_down_effect(v0, ev1, macos, v1, r1),
        is_command(ev2, "x"@, macos),
        key_down_effect(v1, ev2, macos, v2, r2),
    ensures
        v2.text@.len() == 0,
        v2.selection.start == 0 && v2.selection.end == 0,
        r2.copy matches Some(t) && t@ == v0.text@,
{
    reveal_strlit("a");
    reveal_strlit("x");
    reveal_strlit("c");
    reveal_strlit("v");
    let t = v0.text@;
    assert("x"@[0] == 'x' && "a"@[0] == 'a' && "c"@[0] == 'c' && "v"@[0] == 'v');
    assert("x"@ != "a"@ && "x"@ != "c"@ && "x"@ != "v"@);
    assert(t.subrange(0, t.len() as int) =~= t);
    assert(splice(t, 0, t.len() as int, Seq::empty()) =~= Seq::<char>::empty());
}

impl TextView {
    /// The selection is a range, and the text's UTF-8 length fits a `usize`.
    pub open spec fn wf(&self) -> bool {
        &&& self.selection.start <= self.selection.end
        &&& self.text@.len() <= max_text_len()
    }

    /// An empty input with the default placeholder.
    pub fn new() -> (r: TextView)
        ensures
            r.wf(),
            r.text@ == Seq::<char>::empty(),
            r.selection.start == 0 && r.selection.end == 0,
            r.word_click == (0usize, 0u16),
            r.placeholder@ == "Type here..."@,
            !r.masked,
    {
        TextView {
            text: String::new(),
            selection: Range { start: 0, end: 0 },
            word_click: (0, 0),
            placeholder: "Type here...".to_owned(),
            masked: false,
        }
    }

    /// Replaces the text; the cursor goes to the text's length in bytes.
    pub fn set_text(&mut self, text: &str)
        requires
            text@.len() <= max_text_len(),
        ensures
            final(self).wf(),
            final(self).text@ == text@,
            final(self).selection.start == utf8_len(text@),
            final(self).selection.end == utf8_len(text@),
            final(self).word_click == old(self).word_click,
            final(self).placeholder == old(self).placeholder,
            final(self).masked == old(self).masked,
    {
        let chars = chars_of(text);
        let len = utf8_prefix_len(chars.as_slice(), chars.len());
        proof {
            assert(chars@.take(chars@.len() as int) =~= chars@);
        }
        self.text = string_of(chars.as_slice());
        self.selection = Range { start: len, end: len };
    }

    pub fn set_masked(&mut self, masked: bool)
        ensures
            final(self).masked == masked,
            final(self).text == old(self).text,
            final(self).selection == old(self).selection,
            final(self).word_click == old(self).word_click,
            final(self).placeholder == old(self).placeholder,
    {
        self.masked = masked;
    }

    /// Empties the text and puts the cursor at the start.
    pub fn reset(&mut self)
        ensures
            final(self).wf(),
            final(self).text@ == Seq::<char>::empty(),
            final(self).selection.start == 0 && final(self).selection.end == 0,
            final(self).word_click == old(self).word_click,
            final(self).placeholder == old(self).placeholder,
            final(self).masked == old(self).masked,
    {
        self.text = String::new();
        self.selection = Range { start: 0, end: 0 };
    }

    /// The byte range in `text` of the selection: the UTF-8 lengths of the
    /// first `start` and first `end` characters.
    pub fn char_range_to_text_range(&self, text: &str) -> (r: Range<usize>)
        requires
            text@.len() <= usize::MAX / 4,
        ensures
            r.start == utf8_len(text@.take(clamp(self.selection.start as int, text@.len() as int))),
            r.end == utf8_len(text@.take(clamp(self.selection.end as int, text@.len() as int))),
    {
        let chars = chars_of(text);
        let start = utf8_prefix_len(chars.as_slice(), self.selection.start);
        let end = utf8_prefix_len(chars.as_slice(), self.selection.end);
        Range { start, end }
    }

    /// Selects every character.
    pub fn select_all(&mut self)
        requires
            old(self).wf(),
        ensures
            final(self).wf(),
            final(self).selection.start == 0,
            final(self).selection.end == old(self).text@.len(),
            final(self).text == old(self).text,
            final(self).word_click == old(self).word_click,
            final(self).masked == old(self).masked,
    {
        let n = chars_of(self.text.as_str()).len();
        self.selection = Range { start: 0, end: n };
    }

    /// The byte ranges of the words of the text, in order.
    pub fn word_ranges(&self) -> (r: Vec<Range<usize>>)
        requires
            self.wf(),
        ensures
            exists|runs: Seq<(int, int)>|
                {
                    &&& is_word_runs(self.text@, runs)
                    &&& r@.len() == runs.len()
                    &&& forall|k: int|
                        0 <= k < runs.len() ==> (#[trigger] r@[k]).start == utf8_len(
                            self.text@.take(runs[k].0),
                        ) && r@[k].end == utf8_len(self.text@.take(runs[k].1))
                },
    {
        let t = chars_of(self.text.as_str());
        let n = t.len();
        let mut words: Vec<Range<usize>> = Vec::new();
        let ghost mut runs: Seq<(int, int)> = Seq::empty();
        let mut last_was_boundary = true;
        let mut word_start: usize = 0;
        let mut word_start_char: usize = 0;
        let mut byte: usize = 0;
        let mut i: usize = 0;
        while i < n
            invariant
                n == t@.len() <= usize::MAX / 4,
                t@ == self.text@,
                i <= n,
                byte == utf8_len(t@.take(i as int)),
                words@.len() == runs.len(),
                forall|k: int|
                    0 <= k < runs.len() ==> {
                        let (a, b) = #[trigger] runs[k];
                        &&& 0 <= a < b <= i
                        &&& forall|j: int| a <= j < b ==> is_word_char(#[trigger] t@[j])
                        &&& a == 0 || !is_word_char(t@[a - 1])
                        &&& b == t@.len() || !is_word_char(t@[b])
                        &&& words@[k].start == utf8_len(t@.take(a))
                        &&& words@[k].end == utf8_len(t@.take(b))
                    },
                forall|k: int, l: int| 0 <= k < l < runs.len() ==> (#[trigger] runs[k]).1 < (#[trigger] runs[l]).0,
                last_was_boundary ==> (i == 0 || !is_word_char(t@[i - 1])),
                last_was_boundary ==> forall|k: int| 0 <= k < runs.len() ==> (#[trigger] runs[k]).1 < i,
                !last_was_boundary ==> {
                    &&& word_start_char < i
                    &&& (word_start_char == 0 || !is_word_char(t@[word_start_char - 1]))
                    &&& forall|j: int| word_start_char <= j < i ==> is_word_char(#[trigger] t@[j])
                    &&& word_start == utf8_len(t@.take(word_start_char as int))
                    &&& forall|k: int| 0 <= k < runs.len() ==> (#[trigger] runs[k]).1 < word_start_char
                },
                forall|j: int|
                    0 <= j < i && is_word_char(#[trigger] t@[j]) ==> (exists|k: int|
                        0 <= k < runs.len() && (#[trigger] runs[k]).0 <= j < runs[k].1) || (!last_was_boundary
                        && word_start_char <= j),
            decreases n - i,
        {
            let c = t[i];
            let ghost old_runs = runs;
            let ghost old_lwb = last_was_boundary;
            let ghost old_wsc = word_start_char;
            proof {
                crate::chars::lemma_utf8_len_bound(t@.take(i as int));
                assert(t@.take(i + 1).drop_last() =~= t@.take(i as int));
            }
            if crate::chars::is_alphanumeric(c) || c == '_' {
                if last_was_boundary {
                    word_start = byte;
                    word_start_char = i;
                }
                last_was_boundary = false;
            } else {
                if !last_was_boundary {
                    words.push(Range { start: word_start, end: byte });
                    proof {
                        runs = runs.push((word_start_char as int, i as int));
                    }
                }
                last_was_boundary = true;
            }
            byte = byte + crate::chars::char_len_utf8(c);
            i = i + 1;
            proof {
                assert forall|j: int|
                    0 <= j < i && is_word_char(#[trigger] t@[j]) implies (exists|k: int|
                        0 <= k < runs.len() && (#[trigger] runs[k]).0 <= j < runs[k].1) || (!last_was_boundary
                        && word_start_char <= j) by {
                    if j < i - 1 {
                        if exists|k: int| 0 <= k < old_runs.len() && (#[trigger] old_runs[k]).0 <= j < old_runs[k].1 {
                            let k = choose|k: int| 0 <= k < old_runs.len() && (#[trigger] old_runs[k]).0 <= j < old_runs[k].1;
                            assert(runs[k] == old_runs[k]);
                        } else if runs.len() > old_runs.len() {
                            assert(runs[old_runs.len() as int].0 <= j < runs[old_runs.len() as int].1);
                        }
                    }
                }
            }
        }
        let ghost pre_runs = runs;
        if !last_was_boundary {
            words.push(Range { start: word_start, end: byte });
            proof {
                runs = runs.push((word_start_char as int, n as int));
            }
        }
        proof {
            assert(t@.take(n as int) =~= t@);
            assert forall|j: int|
                0 <= j < t@.len() && is_word_char(#[trigger] t@[j]) implies exists|k: int|
                    0 <= k < runs.len() && (#[trigger] runs[k]).0 <= j < runs[k].1 by {
                if exists|k: int| 0 <= k < pre_runs.len() && (#[trigger] pre_runs[k]).0 <= j < pre_runs[k].1 {
                    let k = choose|k: int| 0 <= k < pre_runs.len() && (#[trigger] pre_runs[k]).0 <= j < pre_runs[k].1;
                    assert(runs[k] == pre_runs[k]);
                } else {
                    assert(runs[runs.len() - 1].0 <= j < runs[runs.len() - 1].1);
                }
            }
            assert(is_word_runs(self.text@, runs));
        }
        words
    }
    /// Handles a key press in the input (see `key_down_effect`); `macos`
    /// picks the shortcut modifier. `changed` tells whether the text changed.
    pub fn on_key_down(&mut self, ev: &KeyDownEvent, macos: bool) -> (r: KeyOutcome)
        requires
            old(self).wf(),
            key_down_allowed(*old(self), *ev, macos),
        ensures
            final(self).wf(),
            key_down_effect(*old(self), *ev, macos, *final(self), r),
            r.changed == (final(self).text@ != old(self).text@),
            final(self).word_click == old(self).word_click,
            final(self).placeholder == old(self).placeholder,
            final(self).masked == old(self).masked,
    {
        let prev = self.text.clone();
        let mut r = self.apply_key(ev, macos);
        r.changed = !(prev == self.text);
        r
    }

    fn apply_key(&mut self, ev: &KeyDownEvent, macos: bool) -> (r: KeyOutcome)
        requires
            old(self).wf(),
            key_down_allowed(*old(self), *ev, macos),
        ensures
            final(self).wf(),
            key_down_effect(*old(self), *ev, macos, *final(self), r),
            final(self).word_click == old(self).word_click,
            final(self).placeholder == old(self).placeholder,
            final(self).masked == old(self).masked,
    {
        let t = chars_of(self.text.as_str());
        let n = t.len();
        let s = self.selection.start;
        let e = self.selection.end;
        let ks = &ev.keystroke;
        let empty: Vec<char> = Vec::new();
        if ks.modifiers.secondary(macos) {
            if ks.key_is("a") {
                self.selection = Range { start: 0, end: n };
                no_outcome()
            } else if ks.key_is("c") {
                if !self.masked {
                    let copied = substring(t.as_slice(), s, e);
                    KeyOutcome { copy: Some(copied), paste: false, back: false, changed: false }
                } else {
                    no_outcome()
                }
            } else if ks.key_is("v") {
                KeyOutcome { copy: None, paste: true, back: false, changed: false }
            } else if ks.key_is("x") {
                let copied = substring(t.as_slice(), s, e);
                let rest = splice_chars(&t, s, e, empty.as_slice());
                self.text = string_of(rest.as_slice());
                self.selection = Range { start: s, end: s };
                KeyOutcome { copy: Some(copied), paste: false, back: false, changed: false }
            } else {
                no_outcome()
            }
        } else if let Some(ime) = &ks.ime_key {
            let k = chars_of(ime.as_str());
            let text = splice_chars(&t, s, e, k.as_slice());
            self.text = string_of(text.as_slice());
            let i = s + k.len();
            self.selection = Range { start: i, end: i };
            no_outcome()
        } else if ks.key_is("left") {
            if s > 0 {
                let i = if s == e {
                    s - 1
                } else {
                    s
                };
                self.selection = Range { start: i, end: i };
            }
            no_outcome()
        } else if ks.key_is("right") {
            let len = utf8_prefix_len(t.as_slice(), n);
            proof {
                assert(t@.take(n as int) =~= t@);
            }
            if e < len {
                let i = if s == e {
                    e + 1
                } else {
                    e
                };
                self.selection = Range { start: i, end: i };
            }
            no_outcome()
        } else if ks.key_is("backspace") {
            if n == 0 && !ev.is_held {
                KeyOutcome { copy: None, paste: false, back: true, changed: false }
            } else if s == e && s > 0 {
                let i = if s - 1 < n {
                    s - 1
                } else {
                    n
                };
                let text = splice_chars(&t, i, e, empty.as_slice());
                proof {
                    assert(text@ =~= t@.take(i as int) + t@.skip(clamp(e as int, n as int)));
                }
                self.text = string_of(text.as_slice());
                self.selection = Range { start: i, end: i };
                no_outcome()
            } else {
                let text = splice_chars(&t, s, e, empty.as_slice());
                self.text = string_of(text.as_slice());
                self.selection = Range { start: s, end: s };
                no_outcome()
            }
        } else if ks.key_is("enter") && ks.modifiers.shift {
            let nl: Vec<char> = vec!['\n'];
            let text = splice_chars(&t, s, s, nl.as_slice());
            proof {
                assert(nl@ =~= seq!['\n']);
            }
            self.text = string_of(text.as_slice());
            self.selection = Range { start: s + 1, end: s + 1 };
            no_outcome()
        } else {
            no_outcome()
        }
    }

    /// Replaces the selection with the clipboard's text and puts the cursor
    /// after it; tells whether the text changed.
    pub fn paste(&mut self, clip: &str) -> (changed: bool)
        requires
            old(self).wf(),
            old(self).selection.start + clip@.len() <= usize::MAX,
            old(self).text@.len() + clip@.len() <= max_text_len(),
        ensures
            final(self).wf(),
            final(self).text@ == splice(
                old(self).text@,
                old(self).selection.start as int,
                old(self).selection.end as int,
                clip@,
            ),
            sel_is(
                *final(self),
                old(self).selection.start + clip@.len(),
                old(self).selection.start + clip@.len(),
            ),
            changed == (final(self).text@ != old(self).text@),
            final(self).word_click == old(self).word_click,
            final(self).placeholder == old(self).placeholder,
            final(self).masked == old(self).masked,
    {
        let prev = self.text.clone();
        let t = chars_of(self.text.as_str());
        let k = chars_of(clip);
        let s = self.selection.start;
        let text = splice_chars(&t, s, self.selection.end, k.as_slice());
        self.text = string_of(text.as_slice());
        let i = s + k.len();
        self.selection = Range { start: i, end: i };
        !(prev == self.text)
    }
    /// Forgets the clicked word, as every input event does.
    pub fn on_input(&mut self)
        ensures
            final(self).word_click == (0usize, 0u16),
            final(self).text == old(self).text,
            final(self).selection == old(self).selection,
            final(self).placeholder == old(self).placeholder,
            final(self).masked == old(self).masked,
    {
        self.word_click = (0, 0);
    }

    /// A click on word `ev`: the second click in a row on the same word
    /// selects it, the fourth selects the whole text (in bytes) and starts
    /// the count over.
    pub fn on_word_click(&mut self, ev: usize)
        requires
            old(self).wf(),
            old(self).word_click.1 < u16::MAX,
            forall|runs: Seq<(int, int)>| #[trigger] is_word_runs(old(self).text@, runs) ==> ev < runs.len(),
        ensures
            final(self).wf(),
            ({
                let (index, count) = old(self).word_click;
                let c: int = if index == ev {
                    count + 1
                } else {
                    1
                };
                &&& c == 2 ==> exists|runs: Seq<(int, int)>|
                    {
                        &&& is_word_runs(old(self).text@, runs)
                        &&& final(self).selection.start == utf8_len(old(self).text@.take(runs[ev as int].0))
                        &&& final(self).selection.end == utf8_len(old(self).text@.take(runs[ev as int].1))
                    }
                &&& c == 4 ==> sel_is(*final(self), 0, utf8_len(old(self).text@) as int)
                &&& c != 2 && c != 4 ==> final(self).selection == old(self).selection
                &&& final(self).word_click == (ev, if c == 4 {
                    0u16
                } else {
                    c as u16
                })
            }),
            final(self).text == old(self).text,
            final(self).placeholder == old(self).placeholder,
            final(self).masked == old(self).masked,
    {
        let (index, count) = self.word_click;
        let mut count = if index == ev {
            count + 1
        } else {
            1
        };
        if count == 2 {
            let ranges = self.word_ranges();
            let ghost runs = choose|runs: Seq<(int, int)>|
                {
                    &&& is_word_runs(self.text@, runs)
                    &&& ranges@.len() == runs.len()
                    &&& forall|k: int|
                        0 <= k < runs.len() ==> (#[trigger] ranges@[k]).start == utf8_len(
                            self.text@.take(runs[k].0),
                        ) && ranges@[k].end == utf8_len(self.text@.take(runs[k].1))
                };
            assert(ev < runs.len());
            let r = Range { start: ranges[ev].start, end: ranges[ev].end };
            proof {
                assert(ranges@[ev as int].start == utf8_len(self.text@.take(runs[ev as int].0)));
                crate::chars::lemma_utf8_len_prefix_mono(self.text@, runs[ev as int].0, runs[ev as int].1);
            }
            self.selection = r;
        } else if count == 4 {
            count = 0;
            let t = chars_of(self.text.as_str());
            let len = utf8_prefix_len(t.as_slice(), t.len());
            proof {
                assert(t@.take(t@.len() as int) =~= t@);
            }
            self.selection = Range { start: 0, end: len };
        }
        self.word_click = (ev, count);
    }

    /// What the input shows: the text (as one dot a byte when masked) with
    /// the selection's byte range to highlight, or the placeholder when the
    /// text is empty; a space is appended either way.
    pub fn display(&self) -> (r: (String, Option<Range<usize>>))
        requires
            self.wf(),
        ensures
            self.text@.len() == 0 ==> r.0@ == self.placeholder@ + seq![' '] && r.1 is None,
            self.text@.len() > 0 ==> {
                let shown = if self.masked {
                    Seq::new(utf8_len(self.text@), |i: int| '\u{2022}')
                } else {
                    self.text@
                };
                &&& r.0@ == shown + seq![' ']
                &&& r.1 is Some
                &&& r.1->0.start == utf8_len(shown.take(clamp(self.selection.start as int, shown.len() as int)))
                &&& r.1->0.end == utf8_len(shown.take(clamp(self.selection.end as int, shown.len() as int)))
            },
    {
        let t = chars_of(self.text.as_str());
        if t.len() == 0 {
            let mut p = chars_of(self.placeholder.as_str());
            p.push(' ');
            return (string_of(p.as_slice()), None);
        }
        let shown: Vec<char> = if self.masked {
            let len = utf8_prefix_len(t.as_slice(), t.len());
            proof {
                assert(t@.take(t@.len() as int) =~= t@);
                crate::chars::lemma_utf8_len_bound(t@);
            }
            let mut dots: Vec<char> = Vec::new();
            let mut i: usize = 0;
            while i < len
                invariant
                    i <= len,
                    dots@ =~= Seq::new(i as nat, |j: int| '\u{2022}'),
                decreases len - i,
            {
                dots.push('\u{2022}');
                i = i + 1;
            }
            dots
        } else {
            t
        };
        proof {
            crate::chars::lemma_utf8_len_bound(t@);
        }
        let start = utf8_prefix_len(shown.as_slice(), self.selection.start);
        let end = utf8_prefix_len(shown.as_slice(), self.selection.end);
        let mut text = shown;
        text.push(' ');
        (string_of(text.as_slice()), Some(Range { start, end }))
    }
}

} // verus!

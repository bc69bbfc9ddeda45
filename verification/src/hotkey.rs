//! Shortcuts as the user sees and stores them: the glyphs a shortcut is
//! drawn with, and the text a global hotkey is saved as.

use vstd::prelude::*;

use crate::chars::{chars_of, str_concat, same_str, to_uppercase, upper_case};
use crate::keys::Keystroke;
use crate::state::Shortcut;

verus! {

/// The icons a shortcut is drawn with.
#[derive(Clone, Copy, Debug, PartialEq, Eq, Structural)]
pub enum KeyIcon {
    ChevronUp,
    Option,
    ArrowBigUp,
    Command,
    CornerDownLeft,
    Delete,
    ArrowUpRightFromSquare,
    ArrowRightToLine,
    Space,
    ArrowUp,
    ArrowDown,
    ArrowLeft,
    ArrowRight,
}

/// One key of a drawn shortcut: an icon, or a short text.
#[derive(Debug)]
pub enum KeyGlyph {
    Icon(KeyIcon),
    Text(String),
}

/// The value of a glyph.
pub enum GlyphView {
    Icon(KeyIcon),
    Text(Seq<char>),
}

/// The value of a glyph.
pub open spec fn glyph_view(g: KeyGlyph) -> GlyphView {
    match g {
        KeyGlyph::Icon(i) => GlyphView::Icon(i),
        KeyGlyph::Text(t) => GlyphView::Text(t@),
    }
}

/// The glyph of a key named `key` (with input-method text `ime`): an icon
/// for the named keys, a character for the punctuation names, else the
/// input-method text or the name, upper-cased.
pub open spec fn key_glyph_spec(key: Seq<char>, ime: Option<Seq<char>>) -> GlyphView {
    if key == "enter"@ {
        GlyphView::Icon(KeyIcon::CornerDownLeft)
    } else if key == "backspace"@ || key == "delete"@ {
        GlyphView::Icon(KeyIcon::Delete)
    } else if key == "escape"@ {
        GlyphView::Icon(KeyIcon::ArrowUpRightFromSquare)
    } else if key == "tab"@ {
        GlyphView::Icon(KeyIcon::ArrowRightToLine)
    } else if key == "space"@ {
        GlyphView::Icon(KeyIcon::Space)
    } else if key == "up"@ {
        GlyphView::Icon(KeyIcon::ArrowUp)
    } else if key == "down"@ {
        GlyphView::Icon(KeyIcon::ArrowDown)
    } else if key == "left"@ {
        GlyphView::Icon(KeyIcon::ArrowLeft)
    } else if key == "right"@ {
        GlyphView::Icon(KeyIcon::ArrowRight)
    } else if key == "comma"@ {
        GlyphView::Text(","@)
    } else if key == "dot"@ {
        GlyphView::Text("."@)
    } else if key == "questionmark"@ {
        GlyphView::Text("?"@)
    } else if key == "exclamationmark"@ {
        GlyphView::Text("!"@)
    } else if key == "slash"@ {
        GlyphView::Text("/"@)
    } else if key == "backslash"@ {
        GlyphView::Text("\\"@)
    } else {
        GlyphView::Text(
            upper_case(
                match ime {
                    Some(t) => t,
                    None => key,
                },
            ),
        )
    }
}

/// The glyphs of a keystroke: control, option, shift and command where
/// held, in that order, then the key.
pub open spec fn glyphs_spec(k: Keystroke) -> Seq<GlyphView> {
    let m = k.modifiers;
    let a = if m.control {
        seq![GlyphView::Icon(KeyIcon::ChevronUp)]
    } else {
        Seq::empty()
    };
    let b = if m.alt {
        seq![GlyphView::Icon(KeyIcon::Option)]
    } else {
        Seq::empty()
    };
    let c = if m.shift {
        seq![GlyphView::Icon(KeyIcon::ArrowBigUp)]
    } else {
        Seq::empty()
    };
    let d = if m.platform {
        seq![GlyphView::Icon(KeyIcon::Command)]
    } else {
        Seq::empty()
    };
    let ime = match k.ime_key {
        Some(t) => Some(t@),
        None => None,
    };
    a + b + c + d + seq![key_glyph_spec(k.key@, ime)]
}

fn key_glyph(key: &str, ime: &Option<String>) -> (r: KeyGlyph)
    ensures
        glyph_view(r) == key_glyph_spec(
            key@,
            match ime {
                Some(t) => Some(t@),
                None => None,
            },
        ),
{
    if same_str(key, "enter") {
        KeyGlyph::Icon(KeyIcon::CornerDownLeft)
    } else if same_str(key, "backspace") || same_str(key, "delete") {
        KeyGlyph::Icon(KeyIcon::Delete)
    } else if same_str(key, "escape") {
        KeyGlyph::Icon(KeyIcon::ArrowUpRightFromSquare)
    } else if same_str(key, "tab") {
        KeyGlyph::Icon(KeyIcon::ArrowRightToLine)
    } else if same_str(key, "space") {
        KeyGlyph::Icon(KeyIcon::Space)
    } else if same_str(key, "up") {
        KeyGlyph::Icon(KeyIcon::ArrowUp)
    } else if same_str(key, "down") {
        KeyGlyph::Icon(KeyIcon::ArrowDown)
    } else if same_str(key, "left") {
        KeyGlyph::Icon(KeyIcon::ArrowLeft)
    } else if same_str(key, "right") {
        KeyGlyph::Icon(KeyIcon::ArrowRight)
    } else if same_str(key, "comma") {
        KeyGlyph::Text(",".to_string())
    } else if same_str(key, "dot") {
        KeyGlyph::Text(".".to_string())
    } else if same_str(key, "questionmark") {
        KeyGlyph::Text("?".to_string())
    } else if same_str(key, "exclamationmark") {
        KeyGlyph::Text("!".to_string())
    } else if same_str(key, "slash") {
        KeyGlyph::Text("/".to_string())
    } else if same_str(key, "backslash") {
        KeyGlyph::Text("\\".to_string())
    } else {
        match ime {
            Some(t) => KeyGlyph::Text(to_uppercase(t.as_str())),
            None => KeyGlyph::Text(to_uppercase(key)),
        }
    }
}

/// The glyphs a shortcut is drawn with.
pub fn shortcut_glyphs(shortcut: &Shortcut) -> (r: Vec<KeyGlyph>)
    ensures
        r@.map_values(|g: KeyGlyph| glyph_view(g)) == glyphs_spec(shortcut.inner),
{
    let k = &shortcut.inner;
    let mut r: Vec<KeyGlyph> = Vec::new();
    if k.modifiers.control {
        r.push(KeyGlyph::Icon(KeyIcon::ChevronUp));
    }
    if k.modifiers.alt {
        r.push(KeyGlyph::Icon(KeyIcon::Option));
    }
    if k.modifiers.shift {
        r.push(KeyGlyph::Icon(KeyIcon::ArrowBigUp));
    }
    if k.modifiers.platform {
        r.push(KeyGlyph::Icon(KeyIcon::Command));
    }
    r.push(key_glyph(k.key.as_str(), &k.ime_key));
    proof {
        assert(r@.map_values(|g: KeyGlyph| glyph_view(g)) =~= glyphs_spec(shortcut.inner));
    }
    r
}

/// A single ASCII capital letter.
pub open spec fn is_single_capital(key: Seq<char>) -> bool {
    key.len() == 1 && 'A' <= key[0] <= 'Z'
}

/// `+` between the parts.
pub open spec fn join_plus(parts: Seq<Seq<char>>) -> Seq<char>
    decreases parts.len(),
{
    if parts.len() == 0 {
        Seq::empty()
    } else if parts.len() == 1 {
        parts[0]
    } else {
        join_plus(parts.drop_last()) + "+"@ + parts.last()
    }
}

/// The parts of a stored hotkey: `alt`, `command`, `control` where held,
/// `shift` where held or the key is a single capital letter, then the key.
pub open spec fn hotkey_parts(k: Keystroke) -> Seq<Seq<char>> {
    let m = k.modifiers;
    let a = if m.alt {
        seq!["alt"@]
    } else {
        Seq::empty()
    };
    let b = if m.platform {
        seq!["command"@]
    } else {
        Seq::empty()
    };
    let c = if m.control {
        seq!["control"@]
    } else {
        Seq::empty()
    };
    let d = if m.shift || is_single_capital(k.key@) {
        seq!["shift"@]
    } else {
        Seq::empty()
    };
    a + b + c + d + seq![k.key@]
}

/// The text a global hotkey is stored as (`alt+command+shift+k`, say).
pub fn hotkey_string(k: &Keystroke) -> (r: String)
    ensures
        r@ == join_plus(hotkey_parts(*k)),
{
    let mut parts: Vec<&str> = Vec::new();
    if k.modifiers.alt {
        parts.push("alt");
    }
    if k.modifiers.platform {
        parts.push("command");
    }
    if k.modifiers.control {
        parts.push("control");
    }
    let key = chars_of(k.key.as_str());
    if k.modifiers.shift || (key.len() == 1 && 'A' <= key[0] && key[0] <= 'Z') {
        parts.push("shift");
    }
    parts.push(k.key.as_str());
    let ghost pv = parts@.map_values(|p: &str| p@);
    proof {
        assert(pv =~= hotkey_parts(*k));
    }
    let mut out = parts[0].to_string();
    let mut i: usize = 1;
    proof {
        assert(pv.take(1) =~= seq![pv[0]]);
        assert(join_plus(pv.take(1)) == pv[0]);
    }
    while i < parts.len()
        invariant
            1 <= i <= parts@.len(),
            pv == parts@.map_values(|p: &str| p@),
            out@ == join_plus(pv.take(i as int)),
        decreases parts.len() - i,
    {
        let with_plus = str_concat(out.as_str(), "+");
        out = str_concat(with_plus.as_str(), parts[i]);
        proof {
            assert(pv.take(i + 1).drop_last() =~= pv.take(i as int));
            assert(pv.take(i + 1).last() == parts@[i as int]@);
        }
        i = i + 1;
    }
    proof {
        assert(pv.take(i as int) =~= pv);
    }
    out
}

/// The hotkey form of a command: one hotkey input, holding the command's
/// current hotkey where it has one.
pub fn hotkey_form_input(current: Option<Shortcut>) -> (r: crate::form::Input)
    ensures
        r.id@ == "hotkey"@,
        r.label@ == "Hotkey"@,
        r.error is None,
        !r.show_error,
        r.kind == (crate::form::InputKind::Shortcut { value: current, tmp: current }),
{
    let tmp = match &current {
        Some(s) => Some(s.clone_shortcut()),
        None => None,
    };
    crate::form::Input::new("hotkey", "Hotkey", crate::form::InputKind::Shortcut { value: current, tmp })
}

/// What saving the hotkey form asks of the hotkey manager.
#[derive(Debug)]
pub enum HotkeyChange {
    /// Register the command's hotkey as this keystroke.
    Register(Keystroke),
    /// Remove the command's hotkey.
    Unregister,
}

/// The change the hotkey form asks for: set the recorded shortcut, or unset
/// where none is recorded.
pub fn hotkey_change(value: &Option<Shortcut>) -> (r: HotkeyChange)
    ensures
        match value {
            Some(s) => r matches HotkeyChange::Register(k) && crate::keys::same_keystroke(k, s.inner),
            None => r is Unregister,
        },
{
    match value {
        Some(s) => HotkeyChange::Register(s.get()),
        None => HotkeyChange::Unregister,
    }
}

/// The toast shown after a hotkey change (`true` for an error toast) and
/// its message, by whether the manager refused it.
pub fn hotkey_change_toast(change: &HotkeyChange, refused: bool) -> (r: (bool, String))
    ensures
        r.0 == refused,
        r.1@ == match (*change, refused) {
            (HotkeyChange::Register(_), false) => "Hotkey set"@,
            (HotkeyChange::Register(_), true) => "Failed to set hotkey"@,
            (HotkeyChange::Unregister, false) => "Hotkey unset"@,
            (HotkeyChange::Unregister, true) => "Failed to unset hotkey"@,
        },
{
    let message = match (change, refused) {
        (HotkeyChange::Register(_), false) => "Hotkey set",
        (HotkeyChange::Register(_), true) => "Failed to set hotkey",
        (HotkeyChange::Unregister, false) => "Hotkey unset",
        (HotkeyChange::Unregister, true) => "Failed to unset hotkey",
    };
    (refused, message.to_string())
}

} // verus!

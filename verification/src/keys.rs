//! Keystrokes as the launcher reads them: the modifier keys held, the key's
//! name, and the text an input method produced for it.

use vstd::prelude::*;

use crate::chars::same_str;

verus! {

/// The modifier keys held during a keystroke.
#[derive(Clone, Copy, Debug, PartialEq, Eq, Structural)]
pub struct Modifiers {
    pub control: bool,
    pub alt: bool,
    pub shift: bool,
    /// The command key on macOS, the super key elsewhere.
    pub platform: bool,
    pub function: bool,
}

impl Modifiers {
    /// No modifier held.
    pub fn none() -> (r: Modifiers)
        ensures
            !r.control && !r.alt && !r.shift && !r.platform && !r.function,
    {
        Modifiers { control: false, alt: false, shift: false, platform: false, function: false }
    }

    /// Whether any of control, alt, shift or platform is held.
    pub fn any(&self) -> (r: bool)
        ensures
            r == (self.control || self.alt || self.shift || self.platform),
    {
        self.shift || self.control || self.alt || self.platform
    }

    /// The modifier that launcher shortcuts are bound to: the command key
    /// on macOS, control elsewhere.
    pub fn secondary(&self, macos: bool) -> (r: bool)
        ensures
            r == if macos { self.platform } else { self.control },
    {
        if macos {
            self.platform
        } else {
            self.control
        }
    }
}

/// A key press.
#[derive(Clone, Debug)]
pub struct Keystroke {
    pub modifiers: Modifiers,
    /// The key's name, such as `"a"`, `"enter"` or `"backspace"`.
    pub key: String,
    /// The text an input method produced for the key, if any.
    pub ime_key: Option<String>,
}

/// The input-method text of a keystroke, as characters.
pub open spec fn ime_view(ime: Option<String>) -> Option<Seq<char>> {
    match ime {
        Some(s) => Some(s@),
        None => None,
    }
}

/// Two keystrokes are the same when their modifiers, key names and
/// input-method texts are.
pub open spec fn same_keystroke(a: Keystroke, b: Keystroke) -> bool {
    &&& a.modifiers == b.modifiers
    &&& a.key@ == b.key@
    &&& ime_view(a.ime_key) == ime_view(b.ime_key)
}

/// Two keystrokes are the same only when every modifier agrees (control,
/// alt, shift, the platform key and fn), the key names agree and the
/// input-method texts agree; and keystrokes that agree in all of these are
/// the same.
pub proof fn law_same_keystroke_exact(a: Keystroke, b: Keystroke)
    ensures
        same_keystroke(a, b) <==> {
            &&& a.modifiers.control == b.modifiers.control
            &&& a.modifiers.alt == b.modifiers.alt
            &&& a.modifiers.shift == b.modifiers.shift
            &&& a.modifiers.platform == b.modifiers.platform
            &&& a.modifiers.function == b.modifiers.function
            &&& a.key@ == b.key@
            &&& ime_view(a.ime_key) == ime_view(b.ime_key)
        },
{
}

/// A keystroke with shift is never the same as one without it: shift-enter
/// does not run what enter runs.
pub proof fn law_shift_matters(a: Keystroke, b: Keystroke)
    requires
        a.modifiers.shift != b.modifiers.shift,
    ensures
        !same_keystroke(a, b),
{
}

impl Keystroke {
    /// A keystroke of `key` with no modifier and no input-method text.
    pub fn new(key: &str) -> (r: Keystroke)
        ensures
            r.key@ == key@,
            r.modifiers == Modifiers::none_spec(),
            r.ime_key is None,
    {
        Keystroke { modifiers: Modifiers::none(), key: key.to_owned(), ime_key: None }
    }

    /// Whether the key's name is `name`.
    pub fn key_is(&self, name: &str) -> (r: bool)
        ensures
            r == (self.key@ == name@),
    {
        same_str(self.key.as_str(), name)
    }

    /// Whether `self` and `other` are the same keystroke (gpui's `==`).
    pub fn same_as(&self, other: &Keystroke) -> (r: bool)
        ensures
            r == same_keystroke(*self, *other),
    {
        if self.modifiers != other.modifiers {
            return false;
        }
        if !same_str(self.key.as_str(), other.key.as_str()) {
            return false;
        }
        match (&self.ime_key, &other.ime_key) {
            (None, None) => true,
            (Some(a), Some(b)) => same_str(a.as_str(), b.as_str()),
            _ => false,
        }
    }
}

impl Modifiers {
    /// The modifier that launcher shortcuts are bound to (see `secondary`).
    pub open spec fn secondary_spec(self, macos: bool) -> bool {
        if macos {
            self.platform
        } else {
            self.control
        }
    }

    /// No modifier held.
    pub open spec fn none_spec() -> Modifiers {
        Modifiers { control: false, alt: false, shift: false, platform: false, function: false }
    }
}

/// A key press as an input receives it: the keystroke, and whether the key
/// is being held down (a repeat).
#[derive(Clone, Debug)]
pub struct KeyDownEvent {
    pub keystroke: Keystroke,
    pub is_held: bool,
}

} // verus!

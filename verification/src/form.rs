//! Forms: their inputs and checks, what an input shows, how the focus moves
//! between inputs, how a hotkey input records a shortcut, and when a form
//! may be submitted.

use vstd::prelude::*;

use crate::bitwarden::{validate_answer, validate_instance, validate_required, valid_answer_spec};
use crate::keys::{KeyDownEvent, Keystroke, Modifiers, same_keystroke};
use crate::state::Shortcut;
use crate::web::url_parse;

verus! {

/// The check a text input runs on its value.
#[derive(Debug)]
pub enum Validator {
    /// The value may not be empty; the message says so.
    Required(String),
    /// The value is a yes or a no.
    YesNo,
    /// The value is a URL, and required.
    InstanceUrl,
}

/// The message a check gives for `value`, or none where it passes.
pub open spec fn check_spec(v: Validator, value: Seq<char>) -> Option<Seq<char>> {
    match v {
        Validator::Required(m) => if value.len() == 0 {
            Some(m@)
        } else {
            None
        },
        Validator::YesNo => if valid_answer_spec(value) {
            None
        } else {
            Some("Invalid response"@)
        },
        Validator::InstanceUrl => if value.len() == 0 {
            Some("Instance URL is required"@)
        } else if url_parse(value) is None {
            Some("Invalid URL"@)
        } else {
            None
        },
    }
}

/// Runs a check.
pub fn check(v: &Validator, value: &str) -> (r: Option<String>)
    ensures
        match r {
            Some(m) => check_spec(*v, value@) == Some(m@),
            None => check_spec(*v, value@) is None,
        },
{
    match v {
        Validator::Required(m) => validate_required(value, m.as_str()),
        Validator::YesNo => validate_answer(value),
        Validator::InstanceUrl => validate_instance(value),
    }
}

/// What an input holds.
#[derive(Debug)]
pub enum InputKind {
    TextField { placeholder: String, value: String, password: bool, validate: Option<Validator> },
    /// A hotkey: the one chosen, and the keystroke last pressed while
    /// recording.
    Shortcut { value: Option<Shortcut>, tmp: Option<Shortcut> },
}

/// An input of a form.
#[derive(Debug)]
pub struct Input {
    pub id: String,
    pub label: String,
    pub kind: InputKind,
    pub error: Option<String>,
    pub show_error: bool,
}

/// The message an input's check gives for its value; none for a hotkey.
pub open spec fn input_error_spec(kind: InputKind) -> Option<Seq<char>> {
    match kind {
        InputKind::TextField { value, validate, .. } => match validate {
            Some(v) => check_spec(v, value@),
            None => None,
        },
        InputKind::Shortcut { .. } => None,
    }
}

/// The value of an optional string.
pub open spec fn opt_view(s: Option<String>) -> Option<Seq<char>> {
    match s {
        Some(t) => Some(t@),
        None => None,
    }
}

impl Input {
    /// An input `id` labelled `label`, with no error shown.
    pub fn new(id: &str, label: &str, kind: InputKind) -> (r: Input)
        ensures
            r.id@ == id@,
            r.label@ == label@,
            r.kind == kind,
            r.error is None,
            !r.show_error,
    {
        Input { id: id.to_string(), label: label.to_string(), kind, error: None, show_error: false }
    }

    /// Runs the input's check on its value.
    pub fn validate(&mut self)
        ensures
            opt_view(final(self).error) == input_error_spec(old(self).kind),
            final(self).kind == old(self).kind,
            final(self).id == old(self).id,
            final(self).label == old(self).label,
            final(self).show_error == old(self).show_error,
    {
        let e = match &self.kind {
            InputKind::TextField { value, validate, .. } => match validate {
                Some(v) => check(v, value.as_str()),
                None => None,
            },
            InputKind::Shortcut { .. } => None,
        };
        self.error = e;
    }

    /// The input lost the focus: its check runs and its error shows.
    pub fn on_blur(&mut self)
        ensures
            final(self).show_error,
            opt_view(final(self).error) == input_error_spec(old(self).kind),
            final(self).kind == old(self).kind,
            final(self).id == old(self).id,
    {
        self.show_error = true;
        self.validate();
    }
}

/// What an input shows while it does not have the focus.
#[derive(Debug)]
pub enum InputDisplay {
    /// This text.
    Text(String),
    /// This shortcut.
    Shortcut(Shortcut),
}

/// The text an unfocused input shows: the placeholder of an empty field, a
/// dot for each byte of a password, the value; `Record Hotkey` for a hotkey
/// input without one.
pub open spec fn display_text_spec(kind: InputKind, value_bytes: nat) -> Option<Seq<char>> {
    match kind {
        InputKind::TextField { placeholder, value, password, .. } => if value@.len() == 0 {
            Some(placeholder@)
        } else if password {
            Some(Seq::new(value_bytes, |i: int| '•'))
        } else {
            Some(value@)
        },
        InputKind::Shortcut { value, .. } => match value {
            Some(_) => None,
            None => Some("Record Hotkey"@),
        },
    }
}

/// What an unfocused input shows; `value_bytes` is the length in bytes of a
/// text field's value.
pub fn display(kind: &InputKind, value_bytes: usize) -> (r: InputDisplay)
    requires
        kind matches InputKind::TextField { value, .. } ==> value_bytes == crate::chars::utf8_len(value@),
    ensures
        match display_text_spec(*kind, value_bytes as nat) {
            Some(t) => r matches InputDisplay::Text(s) && s@ == t,
            None => kind matches InputKind::Shortcut { value: Some(v), .. } && r matches InputDisplay::Shortcut(s)
                && same_keystroke(s.inner, v.inner),
        },
{
    match kind {
        InputKind::TextField { placeholder, value, password, .. } => {
            if value.as_str().unicode_len() == 0 {
                InputDisplay::Text(placeholder.clone())
            } else if *password {
                let mut v: Vec<char> = Vec::new();
                let mut i: usize = 0;
                while i < value_bytes
                    invariant
                        i <= value_bytes,
                        v@ == Seq::new(i as nat, |k: int| '•'),
                    decreases value_bytes - i,
                {
                    v.push('•');
                    i = i + 1;
                    proof {
                        assert(v@ =~= Seq::new(i as nat, |k: int| '•'));
                    }
                }
                InputDisplay::Text(crate::chars::string_of(v.as_slice()))
            } else {
                InputDisplay::Text(value.clone())
            }
        },
        InputKind::Shortcut { value, .. } => match value {
            Some(s) => InputDisplay::Shortcut(Shortcut::from(&s.inner)),
            None => InputDisplay::Text("Record Hotkey".to_string()),
        },
    }
}

/// What the query box is set to when an input takes the focus: masked or
/// not, its placeholder, and its text.
pub struct FocusSetup {
    pub masked: bool,
    pub placeholder: Option<String>,
    pub text: String,
}

/// What the query box shows for a focused input: a text field's value
/// (masked for a password, with its placeholder); `Record hotkey` for a
/// hotkey input.
pub fn on_focus(kind: &InputKind) -> (r: FocusSetup)
    ensures
        match *kind {
            InputKind::TextField { placeholder, value, password, .. } => r.masked == password
                && opt_view(r.placeholder) == Some(placeholder@) && r.text@ == value@,
            InputKind::Shortcut { .. } => !r.masked && r.placeholder is None && r.text@ == "Record hotkey"@,
        },
{
    match kind {
        InputKind::TextField { placeholder, value, password, .. } => FocusSetup {
            masked: *password,
            placeholder: Some(placeholder.clone()),
            text: value.clone(),
        },
        InputKind::Shortcut { .. } => FocusSetup {
            masked: false,
            placeholder: None,
            text: "Record hotkey".to_string(),
        },
    }
}

/// What the query box sends a focused input.
#[derive(Debug)]
pub enum QueryEvent {
    Input(String),
    Blur,
    Back,
    KeyDown(KeyDownEvent),
}

/// What follows an event: the text the query box is set to, if any, and the
/// index of the input with the focus.
pub struct QueryOutcome {
    pub set_text: Option<String>,
    pub focus: usize,
}

/// A keystroke with only shift held and key `key`.
pub open spec fn is_plain_key(k: Keystroke, key: Seq<char>, shift: bool) -> bool {
    &&& k.key@ == key
    &&& k.modifiers == Modifiers { shift, ..Modifiers::none_spec() }
    &&& k.ime_key is None
}

/// The focus after a key: shift-tab moves it back (not before the first
/// input), tab forward.
pub open spec fn tab_focus(k: Keystroke, focus: int) -> int {
    if is_plain_key(k, "tab"@, true) {
        if focus > 0 {
            focus - 1
        } else {
            focus
        }
    } else if is_plain_key(k, "tab"@, false) {
        focus + 1
    } else {
        focus
    }
}

/// Tab then shift-tab gives the focus back; so does shift-tab then tab,
/// away from the first input.
pub proof fn law_tab_back_and_forth(focus: int, tab: Keystroke, back: Keystroke)
    requires
        focus >= 0,
        is_plain_key(tab, "tab"@, false),
        is_plain_key(back, "tab"@, true),
    ensures
        tab_focus(back, tab_focus(tab, focus)) == focus,
        focus > 0 ==> tab_focus(tab, tab_focus(back, focus)) == focus,
{
}

/// How a hotkey input takes a key: backspace clears it, a key with a
/// modifier becomes the hotkey (both move on to the next input), any other
/// key is only shown.
pub open spec fn record_spec(
    old_value: Option<Keystroke>,
    k: Keystroke,
    new_value: Option<Keystroke>,
    new_tmp: Option<Keystroke>,
    proceed: bool,
) -> bool {
    let m = k.modifiers;
    if is_plain_key(k, "backspace"@, false) {
        new_value is None && new_tmp is None && proceed
    } else if m.shift || m.control || m.alt || m.platform {
        (new_value matches Some(v) && same_keystroke(v, k)) && (new_tmp matches Some(t) && same_keystroke(t, k))
            && proceed
    } else {
        (match (new_value, old_value) {
            (Some(a), Some(b)) => same_keystroke(a, b),
            (None, None) => true,
            _ => false,
        }) && (new_tmp matches Some(t) && same_keystroke(t, k)) && !proceed
    }
}

/// The keystroke of an optional shortcut.
pub open spec fn shortcut_keystroke(s: Option<Shortcut>) -> Option<Keystroke> {
    match s {
        Some(x) => Some(x.inner),
        None => None,
    }
}

fn copy_shortcut(s: &Option<Shortcut>) -> (r: Option<Shortcut>)
    ensures
        match (r, *s) {
            (Some(a), Some(b)) => same_keystroke(a.inner, b.inner),
            (None, None) => true,
            _ => false,
        },
{
    match s {
        Some(x) => Some(Shortcut::from(&x.inner)),
        None => None,
    }
}

fn is_key(k: &Keystroke, key: &str, shift: bool) -> (r: bool)
    ensures
        r == is_plain_key(*k, key@, shift),
{
    let mut m = Modifiers::none();
    m.shift = shift;
    k.key_is(key) && k.modifiers == m && k.ime_key.is_none()
}

impl Input {
    /// The focused input at index `focus` gets an event from the query box.
    pub fn on_query(&mut self, event: &QueryEvent, focus: usize) -> (r: QueryOutcome)
        requires
            focus < usize::MAX - 1,
        ensures
            final(self).id == old(self).id,
            final(self).label == old(self).label,
            *event matches QueryEvent::Input(text) ==> (old(self).kind matches InputKind::TextField {
                placeholder,
                password,
                validate,
                ..
            } ==> {
                &&& final(self).kind matches InputKind::TextField { placeholder: p, value: v, password: w, validate: c }
                    && p == placeholder && v@ == text@ && w == password && c == validate
                &&& opt_view(final(self).error) == input_error_spec(final(self).kind)
                &&& r.set_text is None && r.focus == focus
            }),
            *event matches QueryEvent::KeyDown(e) ==> (old(self).kind matches InputKind::Shortcut { value, .. } ==> {
                &&& final(self).kind matches InputKind::Shortcut { value: nv, tmp: nt } && exists|proceed: bool|
                    record_spec(
                        shortcut_keystroke(value),
                        e.keystroke,
                        shortcut_keystroke(nv),
                        shortcut_keystroke(nt),
                        proceed,
                    ) && (if proceed {
                        opt_view(r.set_text) == Some(""@) && r.focus == tab_focus(e.keystroke, focus + 1)
                    } else {
                        opt_view(r.set_text) == Some("Record hotkey"@) && r.focus == tab_focus(e.keystroke, focus as int)
                    })
                &&& final(self).error == old(self).error
            }),
            *event matches QueryEvent::KeyDown(e) ==> (old(self).kind is TextField ==> {
                &&& final(self).kind == old(self).kind
                &&& final(self).error == old(self).error
                &&& r.set_text is None && r.focus == tab_focus(e.keystroke, focus as int)
            }),
            *event is Blur || *event is Back || (*event is Input && old(self).kind is Shortcut) ==> final(self).kind == old(
                self,
            ).kind && final(self).error == old(self).error && r.set_text is None && r.focus == focus,
    {
        let mut focus = focus;
        let mut set_text: Option<String> = None;
        match event {
            QueryEvent::Input(text) => {
                let is_field = match &self.kind {
                    InputKind::TextField { .. } => true,
                    InputKind::Shortcut { .. } => false,
                };
                if is_field {
                    let mut old_kind = InputKind::Shortcut { value: None, tmp: None };
                    std::mem::swap(&mut self.kind, &mut old_kind);
                    match old_kind {
                        InputKind::TextField { placeholder, password, validate, .. } => {
                            let v = text.clone();
                            assert(v@ == text@);
                            self.kind = InputKind::TextField { placeholder, value: v, password, validate };
                        },
                        InputKind::Shortcut { value, tmp } => {
                            self.kind = InputKind::Shortcut { value, tmp };
                        },
                    }
                    self.validate();
                    assert(self.kind matches InputKind::TextField { value: v, .. } && v@ == text@);
                    assert(opt_view(self.error) == input_error_spec(self.kind));
                    assert(self.id == old(self).id);
                    assert(self.label == old(self).label);
                    assert(old(self).kind matches InputKind::TextField { placeholder, password, validate, .. } && (self.kind matches InputKind::TextField { placeholder: p, value: v, password: w, validate: c }
                        && p == placeholder && v@ == text@ && w == password && c == validate));
                }
                return QueryOutcome { set_text: None, focus };
            },
            QueryEvent::KeyDown(e) => {
                let k = &e.keystroke;
                let is_shortcut = match &self.kind {
                    InputKind::TextField { .. } => false,
                    InputKind::Shortcut { .. } => true,
                };
                let mut proceed = false;
                if is_shortcut {
                    let old_value = match &self.kind {
                        InputKind::Shortcut { value, .. } => copy_shortcut(value),
                        InputKind::TextField { .. } => None,
                    };
                    if is_key(k, "backspace", false) {
                        self.kind = InputKind::Shortcut { value: None, tmp: None };
                        proceed = true;
                    } else if k.modifiers.shift || k.modifiers.control || k.modifiers.alt || k.modifiers.platform {
                        self.kind = InputKind::Shortcut {
                            tmp: Some(Shortcut::from(k)),
                            value: Some(Shortcut::from(k)),
                        };
                        proceed = true;
                    } else {
                        self.kind = InputKind::Shortcut { tmp: Some(Shortcut::from(k)), value: old_value };
                    }
                    if proceed {
                        set_text = Some("".to_string());
                        focus = focus + 1;
                    } else {
                        set_text = Some("Record hotkey".to_string());
                    }
                }
                if is_key(k, "tab", true) {
                    if focus > 0 {
                        focus = focus - 1;
                    }
                } else if is_key(k, "tab", false) {
                    focus = focus + 1;
                }
                proof {
                    let ghost nk = self.kind;
                    if is_shortcut {
                        match (old(self).kind, nk) {
                            (InputKind::Shortcut { value, .. }, InputKind::Shortcut { value: nv, tmp: nt }) => {
                                assert(record_spec(
                                    shortcut_keystroke(value),
                                    e.keystroke,
                                    shortcut_keystroke(nv),
                                    shortcut_keystroke(nt),
                                    proceed,
                                ));
                            },
                            _ => {},
                        }
                    }
                }
                QueryOutcome { set_text, focus }
            },
            _ => QueryOutcome { set_text: None, focus },
        }
    }
}

/// Whether the form may be submitted: no input has an error. Every
/// input's error is shown from then on.
pub fn submit_check(inputs: &mut Vec<Input>) -> (ok: bool)
    ensures
        final(inputs)@.len() == old(inputs)@.len(),
        forall|i: int|
            0 <= i < final(inputs)@.len() ==> (#[trigger] final(inputs)@[i]).show_error && final(inputs)@[i].error
                == old(inputs)@[i].error && final(inputs)@[i].kind == old(inputs)@[i].kind && final(inputs)@[i].id
                == old(inputs)@[i].id,
        ok == forall|i: int| 0 <= i < old(inputs)@.len() ==> (#[trigger] old(inputs)@[i]).error is None,
{
    let mut ok = true;
    let mut i: usize = 0;
    let n = inputs.len();
    while i < n
        invariant
            n == inputs@.len() == old(inputs)@.len(),
            i <= n,
            forall|j: int|
                0 <= j < i ==> (#[trigger] inputs@[j]).show_error && inputs@[j].error == old(inputs)@[j].error
                    && inputs@[j].kind == old(inputs)@[j].kind && inputs@[j].id == old(inputs)@[j].id,
            forall|j: int| i <= j < n ==> #[trigger] inputs@[j] == old(inputs)@[j],
            ok == forall|j: int| 0 <= j < i ==> (#[trigger] old(inputs)@[j]).error is None,
        decreases n - i,
    {
        if inputs[i].error.is_some() {
            ok = false;
        }
        let mut input = inputs.remove(i);
        input.show_error = true;
        inputs.insert(i, input);
        i = i + 1;
    }
    ok
}

} // verus!

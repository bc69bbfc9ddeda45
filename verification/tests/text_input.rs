use loungy::keys::{KeyDownEvent, Keystroke, Modifiers};
use loungy::text::TextView;

fn key(name: &str) -> KeyDownEvent {
    KeyDownEvent { keystroke: Keystroke::new(name), is_held: false }
}

fn typed(text: &str) -> KeyDownEvent {
    let mut k = Keystroke::new(text);
    k.ime_key = Some(text.to_string());
    KeyDownEvent { keystroke: k, is_held: false }
}

fn cmd(name: &str, macos: bool) -> KeyDownEvent {
    let mut k = Keystroke::new(name);
    if macos {
        k.modifiers.platform = true;
    } else {
        k.modifiers.control = true;
    }
    KeyDownEvent { keystroke: k, is_held: false }
}

#[test]
fn typing_inserts_at_the_cursor() {
    let mut v = TextView::new();
    let r = v.on_key_down(&typed("a"), true);
    assert!(r.changed);
    v.on_key_down(&typed("b"), true);
    assert_eq!(v.text, "ab");
    assert_eq!((v.selection.start, v.selection.end), (2, 2));
    v.on_key_down(&key("left"), true);
    v.on_key_down(&typed("x"), true);
    assert_eq!(v.text, "axb");
}

#[test]
fn law_type_then_backspace_restores() {
    let mut v = TextView::new();
    v.set_text("hello");
    v.on_key_down(&key("left"), false);
    v.on_key_down(&key("left"), false);
    let before = (v.text.clone(), v.selection.clone());
    v.on_key_down(&typed("Z"), false);
    assert_eq!(v.text, "helZlo");
    let r = v.on_key_down(&key("backspace"), false);
    assert!(r.changed && !r.back);
    assert_eq!((v.text.clone(), v.selection.clone()), before);
}

#[test]
fn law_select_all_then_cut_empties() {
    for macos in [true, false] {
        let mut v = TextView::new();
        v.set_text("secret");
        v.on_key_down(&cmd("a", macos), macos);
        let r = v.on_key_down(&cmd("x", macos), macos);
        assert_eq!(r.copy.as_deref(), Some("secret"));
        assert_eq!(v.text, "");
        assert_eq!((v.selection.start, v.selection.end), (0, 0));
    }
}

#[test]
fn backspace_in_empty_input_goes_back() {
    let mut v = TextView::new();
    let r = v.on_key_down(&key("backspace"), true);
    assert!(r.back);
    let held = KeyDownEvent { keystroke: Keystroke::new("backspace"), is_held: true };
    let r = v.on_key_down(&held, true);
    assert!(!r.back);
}

#[test]
fn masked_input_does_not_copy() {
    let mut v = TextView::new();
    v.set_masked(true);
    v.set_text("pw");
    v.on_key_down(&cmd("a", true), true);
    let r = v.on_key_down(&cmd("c", true), true);
    assert!(r.copy.is_none());
    let (shown, _) = v.display();
    assert_eq!(shown, "\u{2022}\u{2022} ");
}

#[test]
fn paste_replaces_the_selection() {
    let mut v = TextView::new();
    v.set_text("abc");
    v.select_all();
    let r = v.on_key_down(&cmd("v", false), false);
    assert!(r.paste);
    assert!(v.paste("xy"));
    assert_eq!(v.text, "xy");
}

#[test]
fn shift_enter_inserts_a_line_break() {
    let mut v = TextView::new();
    v.set_text("a");
    let mut k = Keystroke::new("enter");
    k.modifiers = Modifiers { shift: true, ..Modifiers::none() };
    v.on_key_down(&KeyDownEvent { keystroke: k, is_held: false }, true);
    assert_eq!(v.text, "a\n");
}

#[test]
fn display_shows_the_placeholder_when_empty() {
    let v = TextView::new();
    let (shown, sel) = v.display();
    assert_eq!(shown, "Type here... ");
    assert!(sel.is_none());
}

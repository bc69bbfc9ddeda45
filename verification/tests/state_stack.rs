use loungy::keys::Keystroke;
use loungy::state::{Action, Actions, LoaderState, Shortcut, StateItem, StateModel, Toast, ToastState, Window};

#[test]
fn law_push_then_pop_restores() {
    let mut s = StateModel::init();
    s.push("root".to_string());
    s.push("bitwarden".to_string());
    assert!(s.is_active("bitwarden"));
    s.pop();
    assert_eq!(s.inner.stack.len(), 1);
    assert!(s.is_active("root"));
}

#[test]
fn law_pop_keeps_first() {
    let mut s = StateModel::init();
    s.push("root".to_string());
    s.pop();
    s.pop();
    assert_eq!(s.inner.stack.len(), 1);
    assert_eq!(s.inner.stack[0].id, "root");
}

#[test]
fn law_reset_idempotent_and_replace() {
    let mut s = StateModel::init();
    assert!(!s.reset());
    s.push("root".to_string());
    s.push("a".to_string());
    s.replace("b".to_string());
    assert_eq!(s.inner.stack.len(), 2);
    assert!(s.is_active("b"));
    assert!(s.reset());
    assert!(s.reset());
    assert_eq!(s.inner.stack.len(), 1);
    s.push_item(StateItem { id: "preview".to_string(), workspace: false });
    assert_eq!(s.workspace_view(), Some(0));
    assert_eq!(s.current(), Some(1));
}

#[test]
fn toasts_time_out() {
    let mut t = Toast::init();
    t.success("done", 100);
    match &t.state {
        ToastState::Success { fade_out, .. } => assert_eq!(*fade_out, Some(3100)),
        _ => panic!("expected success"),
    }
    t.error("failed", 0);
    match &t.state {
        ToastState::Error { fade_out, .. } => assert_eq!(*fade_out, Some(4000)),
        _ => panic!("expected error"),
    }
    t.timeout();
    assert!(matches!(t.state, ToastState::Idle));
}

#[test]
fn law_add_then_remove_loader() {
    let mut l = LoaderState::new(5);
    let a = l.add();
    let b = l.add();
    assert_eq!(l.get(10), (true, 10));
    l.remove(b);
    assert_eq!(l.loaders, vec![(a, true)]);
    l.remove(a);
    assert_eq!(l.get(20), (false, 20));
}

#[test]
fn law_cycle_stays_in_items() {
    let mut a = Actions::new();
    a.set_dropdown("memory", vec![("memory".to_string(), "Memory".to_string()), ("cpu".to_string(), "CPU".to_string())]);
    assert_eq!(a.get_dropdown_value(), "memory");
    a.dropdown_cycle();
    assert_eq!(a.get_dropdown_value(), "cpu");
    a.dropdown_cycle();
    assert_eq!(a.get_dropdown_value(), "memory");
    a.set_dropdown_value("nope");
    assert_eq!(a.get_dropdown_value(), "memory");
}

#[test]
fn actions_are_found_by_shortcut() {
    let mut a = Actions::new();
    a.update_local(vec![
        Action::new("Paste", None, false),
        Action::new("Open", Some(Shortcut::new("o").cmd(true)), false),
    ]);
    let mut k = Keystroke::new("o");
    k.modifiers.platform = true;
    let hit = a.check(&k, true);
    assert_eq!(hit.map(|(i, a)| (i, a.label)), Some((1, "Open".to_string())));
    assert!(a.check(&Keystroke::new("o"), true).is_none());
    let enter = a.check(&Keystroke::new("enter"), true);
    assert_eq!(enter.map(|(i, a)| (i, a.label)), Some((0, "Paste".to_string())));
    let mut k = Keystroke::new("k");
    k.modifiers.platform = true;
    assert_eq!(a.check(&k, true).map(|(_, a)| a.label), Some("Actions".to_string()));
    assert_eq!(a.combined(true).len(), 3);
}

#[test]
fn window_opens_once() {
    let mut w = Window::init();
    assert!(!w.open());
    w.close();
    assert!(w.open());
    assert!(!w.open());
}

use loungy::events::action_entry;
use loungy::form::QueryEvent;
use loungy::keys::{KeyDownEvent, Keystroke};
use loungy::state::{Action, Actions, Shortcut};

fn press(k: Keystroke, is_held: bool) -> QueryEvent {
    QueryEvent::KeyDown(KeyDownEvent { keystroke: k, is_held })
}

fn view_actions() -> Actions {
    let mut a = Actions::new();
    a.update_local(vec![
        Action::new("Paste", None, false),
        Action::new("Open", Some(Shortcut::new("o").cmd(true)), false),
        Action::new("Secret", None, true),
    ]);
    a.set_dropdown(
        "cpu",
        vec![
            ("cpu".to_string(), "CPU".to_string()),
            ("memory".to_string(), "Memory".to_string()),
        ],
    );
    a
}

#[test]
fn bound_keys_run_their_action() {
    let mut a = view_actions();
    let mut k = Keystroke::new("o");
    k.modifiers.platform = true;
    let r = a.on_view_event(&press(k.clone(), false), true);
    assert_eq!(r.run, Some(1));
    assert!(!r.cycled && !r.close_window && !r.pop);
    let held = a.on_view_event(&press(k, true), true);
    assert_eq!(held.run, None);
    let enter = a.on_view_event(&press(Keystroke::new("enter"), false), true);
    assert_eq!(enter.run, Some(0));
}

#[test]
fn tab_cycles_the_dropdown_and_escape_hides() {
    let mut a = view_actions();
    let r = a.on_view_event(&press(Keystroke::new("tab"), false), true);
    assert!(r.cycled);
    assert_eq!(a.get_dropdown_value(), "memory");
    a.on_view_event(&press(Keystroke::new("tab"), false), true);
    assert_eq!(a.get_dropdown_value(), "cpu");
    let esc = a.on_view_event(&press(Keystroke::new("escape"), false), true);
    assert!(esc.close_window);
    assert_eq!(esc.run, None);
    let back = a.on_view_event(&QueryEvent::Back, true);
    assert!(back.pop);
    let typed = a.on_view_event(&QueryEvent::Input("x".to_string()), true);
    assert!(!typed.pop && typed.run.is_none());
}

#[test]
fn the_actions_list_reacts_to_its_query_box() {
    let mut a = view_actions();
    a.toggle_show();
    assert!(a.show);
    let enter = a.on_popup_event(&press(Keystroke::new("enter"), false), true);
    assert!(enter.run_default && enter.run.is_none());
    assert!(!a.show);

    a.toggle_show();
    let mut k = Keystroke::new("o");
    k.modifiers.platform = true;
    let bound = a.on_popup_event(&press(k, false), true);
    assert_eq!(bound.run, Some(1));
    assert!(a.show);

    let esc = a.on_popup_event(&press(Keystroke::new("escape"), false), true);
    assert!(!esc.run_default && esc.run.is_none());
    assert!(!a.show);

    a.toggle_show();
    a.on_popup_event(&QueryEvent::Input("p".to_string()), true);
    assert!(a.show);
    a.on_popup_event(&QueryEvent::Blur, true);
    assert!(!a.show);
}

#[test]
fn hidden_actions_are_not_listed() {
    let a = view_actions();
    let shown: Vec<String> = a.visible(true).into_iter().map(|x| x.label).collect();
    assert_eq!(shown, vec!["Paste".to_string(), "Open".to_string()]);
    assert!(Actions::new().visible(false).is_empty());
}

#[test]
fn action_entries_are_found_by_label() {
    let item = action_entry(4, Action::new("Copy", None, false));
    assert_eq!(item.id, 4);
    assert_eq!(item.keywords, vec!["Copy".to_string()]);
    assert_eq!(item.actions.len(), 1);
    assert_eq!(item.actions[0].label, "Copy");
}

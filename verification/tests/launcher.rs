use loungy::commands::{
    app_entry, clipboard_command, collect_apps, menu_entry, open_args, process_command, root_search, theme_command,
    CommandAccessory, MenuItem, RootCommand, RootCommands,
};
use loungy::commands::menu_list;
use loungy::events::action_entry;
use loungy::theme::themes_list;
use loungy::state::Action;
use loungy::date::{date_format, format_date, CivilDateTime};
use loungy::form::{check, display, on_focus, submit_check, Input, InputDisplay, InputKind, QueryEvent, Validator};
use loungy::hotkey::{hotkey_change, hotkey_change_toast, hotkey_form_input, hotkey_string, shortcut_glyphs, HotkeyChange, KeyGlyph, KeyIcon};
use loungy::icon::{icon_path, to_kebap};
use loungy::ipc::{command_names, decide, key_name, CommandPayload, IpcError, IpcOutcome, TopLevelCommand};
use loungy::keys::{KeyDownEvent, Keystroke, Modifiers};
use loungy::list::{Accessory, ItemBuilder};
use loungy::matrix::{media_path, message_actions, mxc_to_http, reaction, run_flags, shows_avatar};
use loungy::numbat::{numbat_result, rephraser, FormatKind};
use loungy::paths::{path_join, Paths, Platform};
use loungy::platform::{application_tag, get_application_files};
use loungy::matrix::message_shown;
use loungy::state::{Shortcut, StateModel};
use loungy::theme::{builtin_theme_names, select_theme, theme_entry, theme_name, ThemeSettings};
use loungy::web::{open_url, text_is_web_link, with_scheme};

#[test]
fn hotkeys_are_stored_with_modifiers_first() {
    let mut k = Keystroke::new("k");
    k.modifiers.platform = true;
    k.modifiers.alt = true;
    assert_eq!(hotkey_string(&k), "alt+command+k");
    let mut k = Keystroke::new("K");
    k.modifiers.control = true;
    assert_eq!(hotkey_string(&k), "control+shift+K");
    assert_eq!(hotkey_string(&Keystroke::new("space")), "space");
}

#[test]
fn shortcuts_are_drawn_with_glyphs() {
    let s = Shortcut::new("enter").shift().cmd(true);
    let g = shortcut_glyphs(&s);
    assert!(matches!(g[0], KeyGlyph::Icon(KeyIcon::ArrowBigUp)));
    assert!(matches!(g[1], KeyGlyph::Icon(KeyIcon::Command)));
    assert!(matches!(g[2], KeyGlyph::Icon(KeyIcon::CornerDownLeft)));
    let g = shortcut_glyphs(&Shortcut::new("comma"));
    assert!(matches!(&g[0], KeyGlyph::Text(t) if t == ","));
    let g = shortcut_glyphs(&Shortcut::new("p").ctrl(true));
    assert!(matches!(&g[0], KeyGlyph::Icon(KeyIcon::ChevronUp)));
    assert!(matches!(&g[1], KeyGlyph::Text(t) if t == "P"));
}

#[test]
fn icons_in_kebab_case() {
    assert_eq!(to_kebap("ArrowUpRightFromSquare"), "arrow-up-right-from-square");
    assert_eq!(to_kebap("Clock3"), "clock-3");
    assert_eq!(to_kebap("x"), "x");
    assert_eq!(icon_path("PlusSquare"), "icons/plus-square.svg");
}

#[test]
fn dates_are_prefixed_by_day() {
    assert_eq!(date_format(5, 5, 4), "Today, %H:%M:%S");
    assert_eq!(date_format(5, 6, 5), "Yesterday, %H:%M:%S");
    assert_eq!(date_format(5, 9, 8), "%d. %b %Y, %H:%M:%S");
    let dt = CivilDateTime { year: 2024, month: 3, day: 9, hour: 14, minute: 5, second: 7 };
    assert_eq!(format_date(1, dt, 8).as_deref(), Some("09. Mar 2024, 14:05:07"));
    assert_eq!(format_date(9, dt, 8).as_deref(), Some("Today, 14:05:07"));
    let bad = CivilDateTime { year: 2024, month: 13, day: 1, hour: 0, minute: 0, second: 0 };
    assert!(format_date(1, bad, 0).is_none());
}

#[test]
fn calculator_queries_are_rephrased() {
    assert_eq!(rephraser("1 and 2"), "1 + 2");
    assert_eq!(rephraser("3 days from now"), "now() + 3 days");
    assert_eq!(rephraser("2 hours and 3 minutes from now"), "now() + 2 hours + 3 minutes");
    assert_eq!(rephraser("plain"), "plain");
    let r = numbat_result(
        &vec!["1 m".to_string(), "➞ cm".to_string()],
        &vec![
            (FormatKind::Value, "100".to_string()),
            (FormatKind::Unit, "cm".to_string()),
            (FormatKind::TypeIdentifier, "Length".to_string()),
        ],
    )
    .unwrap();
    assert_eq!((r.equation.as_str(), r.result.as_str(), r.unit.as_str(), r.type_id.as_str()), ("1 m to cm", "100", "cm", "Length"));
    assert!(numbat_result(&vec![], &vec![(FormatKind::Unit, "m".to_string())]).is_none());
}

#[test]
fn themes_by_name() {
    assert_eq!(builtin_theme_names(), vec!["Catppuccin Latte", "Catppuccin Frappe", "Catppuccin Macchiato", "Catppuccin Mocha"]);
    assert_eq!(theme_name("mocha"), "Catppuccin Mocha");
    let names = builtin_theme_names();
    let s = ThemeSettings::default_settings();
    assert_eq!(select_theme(&names, &s.for_appearance(true)), 3);
    assert_eq!(select_theme(&names, &s.for_appearance(false)), 0);
    assert_eq!(select_theme(&names, "Nope"), 0);
    let e = theme_entry(1, "Catppuccin Mocha", true);
    assert_eq!(e.actions.len(), 3);
    assert_eq!(e.actions[2].shortcut.as_ref().unwrap().inner.key, "d");
}

#[test]
fn client_requests() {
    assert_eq!(TopLevelCommand::Toggle.name(), "toggle");
    assert_eq!(key_name("loungy::commands::clipboard"), "clipboard");
    let keys = vec!["loungy::commands::clipboard".to_string(), "loungy::commands::themes".to_string()];
    let ids = vec!["clipboard".to_string(), "themes".to_string()];
    assert_eq!(command_names(&keys), vec!["clipboard", "themes"]);
    let mut state = StateModel::init();
    state.push("root".to_string());
    let ask = |action, command: Option<&str>| CommandPayload { action, command: command.map(|c| c.to_string()) };
    assert_eq!(decide(&ask(TopLevelCommand::Show, None), &keys, &ids, &state), Ok(IpcOutcome::Show));
    assert_eq!(decide(&ask(TopLevelCommand::Command, None), &keys, &ids, &state), Err(IpcError::NoCommand));
    assert_eq!(decide(&ask(TopLevelCommand::Command, Some("nope")), &keys, &ids, &state), Err(IpcError::NotFound));
    assert_eq!(decide(&ask(TopLevelCommand::Command, Some("themes")), &keys, &ids, &state), Ok(IpcOutcome::Run(1)));
    state.push("themes".to_string());
    assert_eq!(decide(&ask(TopLevelCommand::Command, Some("themes")), &keys, &ids, &state), Ok(IpcOutcome::Toggle));
    assert_eq!(decide(&ask(TopLevelCommand::Pipe, None), &keys, &ids, &state), Ok(IpcOutcome::Nothing));
}

#[test]
fn commands_and_applications_in_the_root_search() {
    let c = RootCommand::new("themes", "Search Themes", "Customization", "Palette", vec!["Appearance".to_string()], None);
    let e = c.entry(3);
    assert_eq!(e.keywords, vec!["Search Themes", "Customization", "Appearance"]);
    assert_eq!(e.weight, Some(3));
    assert_eq!(e.actions[1].label, "Change Hotkey");
    assert!(matches!(c.accessory(), CommandAccessory::Label(l) if l == "Command"));
    let a = app_entry(1, "com.apple.Safari", "Safari", "/Applications/Safari.app", "/cache");
    assert_eq!(a.icon_path, "/cache/com.apple.Safari.png");
    assert_eq!(a.item.actions[0].label, "Open Application");
    let s = app_entry(2, "com.apple.Mouse", "Mouse", "/System/Library/ExtensionKit/Extensions/Mouse.appex", "/cache");
    assert!(s.system_setting);
    assert_eq!(s.item.actions[0].label, "Open System Setting");
    assert_eq!(open_args("com.apple.Mouse", true), vec!["x-apple.systempreferences:com.apple.Mouse"]);
    assert_eq!(open_args("com.apple.Safari", false), vec!["-b", "com.apple.Safari"]);
    let apps = collect_apps(vec![
        app_entry(1, "b.id", "Zed", "/A/Zed.app", "/c"),
        app_entry(2, "a.id", "Arc", "/A/Arc.app", "/c"),
        app_entry(3, "b.id", "Zed Preview", "/B/Zed.app", "/c"),
    ]);
    assert_eq!(apps.iter().map(|a| a.name.clone()).collect::<Vec<_>>(), vec!["Arc", "Zed Preview"]);
    let found = root_search("zzzz", vec![a.item], vec![e], Some(ItemBuilder::new(99).build()));
    assert_eq!(found.iter().map(|i| i.id).collect::<Vec<_>>(), vec![99]);
}

#[test]
fn chat_messages_group_by_sender() {
    let senders: Vec<String> = ["a", "a", "b", "a"].iter().map(|s| s.to_string()).collect();
    assert_eq!(run_flags(&senders), vec![(true, false), (false, true), (true, true), (true, true)]);
    assert!(shows_avatar(false, true) && !shows_avatar(true, true));
    assert_eq!(message_actions(false, true).len(), 1);
    assert_eq!(message_actions(true, true)[2].label, "Delete");
    assert_eq!(
        media_path("https://matrix.org/", "matrix.org", "abc", true),
        "https://matrix.org/_matrix/media/v3/thumbnail/matrix.org/abc?width=50&height=50&method=crop"
    );
    assert_eq!(
        mxc_to_http("https://matrix.org/", "matrix.org", "abc", false).as_deref(),
        Some("https://matrix.org/_matrix/media/v3/download/matrix.org/abc")
    );
    let r = reaction("👍", &vec!["@a:x".to_string(), "@me:x".to_string()], "@me:x");
    assert_eq!((r.count, r.me), (2, true));
}

#[test]
fn addresses() {
    assert_eq!(with_scheme("example.com"), "https://example.com");
    assert_eq!(with_scheme("http://x"), "http://x");
    assert_eq!(with_scheme(&with_scheme("example.com")), with_scheme("example.com"));
    assert_eq!(open_url("example.com").as_deref(), Some("https://example.com/"));
    assert!(open_url("exa mple.com").is_none());
    assert!(text_is_web_link("https://a.org"));
    assert!(!text_is_web_link("hello"));
    assert_eq!(path_join("/a/", "b"), "/a/b");
    assert_eq!(path_join("/a", "/b"), "/b");
    let p = Paths::for_user("alice", Platform::Linux);
    assert_eq!(p.cache, "/home/alice/.cache/loungy");
    let m = Paths::for_user("alice", Platform::MacOs);
    assert_eq!(m.data, "/Users/alice/Library/Application Support/loungy");
    assert_eq!(application_tag("/A/Safari.app").as_deref(), Some("Application"));
    assert_eq!(application_tag("/A/Mouse.appex").as_deref(), Some("System Setting"));
    assert!(application_tag("/A/README").is_none());
}

fn text_input(validate: Option<Validator>) -> Input {
    Input::new(
        "id",
        "Identifier",
        InputKind::TextField { placeholder: "Enter...".to_string(), value: String::new(), password: false, validate },
    )
}

fn key(k: Keystroke) -> QueryEvent {
    QueryEvent::KeyDown(KeyDownEvent { keystroke: k, is_held: false })
}

#[test]
fn forms_check_and_move_focus() {
    assert_eq!(check(&Validator::Required("Identifier is required".to_string()), "").as_deref(), Some("Identifier is required"));
    assert!(check(&Validator::YesNo, "y").is_none());
    let mut i = text_input(Some(Validator::Required("Identifier is required".to_string())));
    let out = i.on_query(&QueryEvent::Input("abc".to_string()), 0);
    assert_eq!(out.focus, 0);
    assert!(i.error.is_none());
    i.on_query(&QueryEvent::Input(String::new()), 0);
    assert_eq!(i.error.as_deref(), Some("Identifier is required"));
    let mut tab = Keystroke::new("tab");
    assert_eq!(i.on_query(&key(tab.clone()), 1).focus, 2);
    tab.modifiers = Modifiers { shift: true, ..Modifiers::none() };
    assert_eq!(i.on_query(&key(tab.clone()), 1).focus, 0);
    assert_eq!(i.on_query(&key(tab), 0).focus, 0);
    let mut inputs = vec![i, text_input(None)];
    assert!(!submit_check(&mut inputs));
    assert!(inputs.iter().all(|x| x.show_error));
    inputs[0].on_query(&QueryEvent::Input("ok".to_string()), 0);
    assert!(submit_check(&mut inputs));
}

#[test]
fn hotkey_inputs_record_shortcuts() {
    let mut h = Input::new("hotkey", "Hotkey", InputKind::Shortcut { value: None, tmp: None });
    let out = h.on_query(&key(Keystroke::new("k")), 0);
    assert_eq!(out.set_text.as_deref(), Some("Record hotkey"));
    assert_eq!(out.focus, 0);
    let mut k = Keystroke::new("k");
    k.modifiers.alt = true;
    let out = h.on_query(&key(k), 0);
    assert_eq!((out.set_text.as_deref(), out.focus), (Some(""), 1));
    match &h.kind {
        InputKind::Shortcut { value: Some(v), .. } => assert!(v.inner.modifiers.alt),
        _ => panic!("expected a recorded hotkey"),
    }
    h.on_query(&key(Keystroke::new("backspace")), 0);
    assert!(matches!(h.kind, InputKind::Shortcut { value: None, tmp: None }));
    assert!(matches!(display(&h.kind, 0), InputDisplay::Text(t) if t == "Record Hotkey"));
    let setup = on_focus(&h.kind);
    assert_eq!(setup.text, "Record hotkey");
    let pw = InputKind::TextField { placeholder: "P".to_string(), value: "abc".to_string(), password: true, validate: None };
    assert!(matches!(display(&pw, 3), InputDisplay::Text(t) if t == "•••"));
}

#[test]
fn commands_are_registered_once_per_id() {
    let first = RootCommand::new("themes", "Old Themes", "", "Palette", vec![], None);
    let registry = RootCommands::init(vec![first, process_command(), theme_command(), clipboard_command()]);
    let ids: Vec<String> = registry.commands.iter().map(|c| c.id.clone()).collect();
    assert_eq!(ids, vec!["task_manager", "themes", "clipboard"]);
    assert_eq!(registry.commands[1].title, "Search Themes");
    assert!(registry.knows("clipboard"));
    assert!(!registry.knows("matrix"));
    let stored = vec![
        ("matrix".to_string(), "cmd-m".to_string()),
        ("themes".to_string(), "cmd-t".to_string()),
    ];
    assert_eq!(registry.known_hotkeys(stored), vec![("themes".to_string(), "cmd-t".to_string())]);
    let p = process_command();
    assert_eq!(p.title, "Search Processes");
    assert_eq!(p.keywords, vec!["Kill", "Memory", "CPU"]);
}

#[test]
fn menu_items_are_named_by_their_last_part() {
    let path = vec!["File".to_string(), "Export".to_string(), "PDF".to_string()];
    let m = menu_entry(7, &path, true, Some(Shortcut::new("p").cmd(true)));
    assert_eq!(m.name, "PDF");
    assert_eq!(m.subtitle, "File -> Export");
    assert_eq!(m.item.keywords, vec!["PDF", "File -> Export"]);
    assert_eq!(m.item.actions[0].label, "Select Menu Item");
    let off = menu_entry(8, &vec!["Help".to_string()], false, None);
    assert!(off.item.accessory.is_none());
    assert!(matches!(&m.item.accessory, Some(Accessory::Shortcut(s)) if s.inner.key == "p"));
    assert_eq!(off.subtitle, "");
    assert!(off.item.actions.is_empty());
}

#[test]
fn saving_a_hotkey_sets_or_unsets_it() {
    let mut s = Shortcut::new("k");
    s = s.cmd(true);
    let change = hotkey_change(&Some(s));
    assert!(matches!(&change, HotkeyChange::Register(k) if k.key == "k" && k.modifiers.platform));
    assert_eq!(hotkey_change_toast(&change, false), (false, "Hotkey set".to_string()));
    assert_eq!(hotkey_change_toast(&change, true), (true, "Failed to set hotkey".to_string()));
    let none = hotkey_change(&None);
    assert!(matches!(none, HotkeyChange::Unregister));
    assert_eq!(hotkey_change_toast(&none, false), (false, "Hotkey unset".to_string()));
    assert_eq!(hotkey_change_toast(&none, true), (true, "Failed to unset hotkey".to_string()));
}

#[test]
fn the_hotkey_form_starts_from_the_current_hotkey() {
    let input = hotkey_form_input(Some(Shortcut::new("space")));
    assert_eq!(input.id, "hotkey");
    assert_eq!(input.label, "Hotkey");
    assert!(matches!(&input.kind, InputKind::Shortcut { value: Some(v), tmp: Some(t) } if v.inner.key == "space" && t.inner.key == "space"));
    assert!(matches!(hotkey_form_input(None).kind, InputKind::Shortcut { value: None, tmp: None }));
}

#[test]
fn the_calculator_answers_queries() {
    let mut calc = loungy::numbat::Calculator::new();
    let sum = calc.evaluate("2 and 3").expect("an answer");
    assert_eq!(sum.result, "5");
    let length = calc.evaluate("1 m to cm").expect("an answer");
    assert_eq!(length.result, "100");
    assert_eq!(length.unit, "cm");
    assert!(calc.evaluate("this is no calculation").is_none());
    assert_eq!(loungy::numbat::format_kind("TypeIdentifier"), FormatKind::TypeIdentifier);
    assert_eq!(loungy::numbat::format_kind("Operator"), FormatKind::Other);
}

#[test]
fn the_back_button_shows_over_the_first_view() {
    let mut state = StateModel::init();
    state.push("root".to_string());
    assert!(!state.shows_back());
    state.push("themes".to_string());
    assert!(state.shows_back());
}

#[test]
fn default_themes_are_changed_one_appearance_at_a_time() {
    let mut t = ThemeSettings::default_settings();
    t.set_default("Catppuccin Frappe", true);
    assert_eq!(t.dark, "Catppuccin Frappe");
    assert_eq!(t.light, "Catppuccin Latte");
    assert_eq!(t.for_appearance(true), "Catppuccin Frappe");
    assert_eq!(t.for_appearance(false), "Catppuccin Latte");
    let names = builtin_theme_names();
    assert_eq!(select_theme(&names, &t.for_appearance(true)), 1);
    t.set_default("Catppuccin Mocha", false);
    assert_eq!(t.light, "Catppuccin Mocha");
    assert_eq!(ThemeSettings::set_default_toast(false, false), (false, "Changed light theme".to_string()));
    assert_eq!(ThemeSettings::set_default_toast(true, true), (true, "Failed to change dark theme".to_string()));
}

#[test]
fn chat_messages_are_found_by_text_or_sender() {
    assert!(message_shown("HELLO", Some("well, hello there"), "@bob:example.org"));
    assert!(message_shown("bob", None, "@Bob:example.org"));
    assert!(!message_shown("zzz", Some("hello"), "@bob:example.org"));
    assert!(message_shown("", None, "x"));
}

#[test]
fn application_folders_list_apps_and_plain_folders_only() {
    let folders = vec![
        ("/Applications".to_string(), Some(vec!["/Applications/Safari.app".to_string()])),
        ("/System/Library/CoreServices/Finder.app".to_string(), Some(vec!["/x/Contents".to_string()])),
        ("/Users/me/Applications/Chrome Apps.localized".to_string(), Some(vec!["/y/Docs.app".to_string()])),
        ("/missing".to_string(), None),
    ];
    assert_eq!(
        get_application_files(folders),
        vec!["/Applications/Safari.app".to_string(), "/System/Library/CoreServices/Finder.app".to_string()]
    );
}

#[test]
fn icon_files_in_kebab_case() {
    assert_eq!(to_kebap("ArrowUpRightFromSquare"), "arrow-up-right-from-square");
    assert_eq!(to_kebap("Loader2"), "loader-2");
    assert_eq!(to_kebap(""), "");
    assert_eq!(icon_path("Loader2"), "icons/loader-2.svg");
}

#[test]
fn menu_lists_keep_the_menu_order() {
    let items = vec![
        MenuItem { path: vec!["File".to_string(), "Open".to_string()], selectable: true, shortcut: Some(Shortcut::new("o").cmd(true)) },
        MenuItem { path: vec!["Help".to_string()], selectable: false, shortcut: None },
    ];
    let list = menu_list(Some(items), &vec![5, 6]).ok().unwrap();
    assert_eq!(list.len(), 2);
    assert_eq!(list[0].name, "Open");
    assert_eq!(list[0].item.subtitle.as_deref(), Some("File"));
    assert!(list[0].item.accessory.is_some());
    assert_eq!(list[1].item.id, 6);
    assert!(list[1].item.actions.is_empty());
    assert_eq!(menu_list(None, &vec![]).err(), Some("Failed to deserialize menu list".to_string()));
}

#[test]
fn user_themes_follow_the_built_in_ones() {
    let names = themes_list(vec!["Mine".to_string()]);
    assert_eq!(names, vec!["Catppuccin Latte", "Catppuccin Frappe", "Catppuccin Macchiato", "Catppuccin Mocha", "Mine"]);
    assert_eq!(select_theme(&names, "Mine"), 4);
}

#[test]
fn action_entries_show_their_shortcut() {
    let e = action_entry(1, Action::new("Open", Some(Shortcut::new("o").cmd(true)), false));
    assert!(matches!(&e.accessory, Some(Accessory::Shortcut(s)) if s.inner.key == "o"));
    assert!(action_entry(2, Action::new("Paste", None, false)).accessory.is_none());
}

use loungy::clipboard::{
    clip_title, history_filter_options, image_entry, newest_first, preview_rows, should_record, text_entry,
    ClipboardKind, ClipboardListItem, ClipboardListItemKind, ClipboardMonitor,
};
use loungy::list::ItemBuilder;
use loungy::platform::AppData;
use loungy::state::ClipboardWatcher;

fn app(id: &str) -> Option<AppData> {
    Some(AppData {
        id: id.to_string(),
        name: "Editor".to_string(),
        icon_path: "/icons/editor.png".to_string(),
        keywords: vec![],
        tag: "Application".to_string(),
    })
}

#[test]
fn titles_are_trimmed_joined_and_cut() {
    assert_eq!(clip_title("  hello\nworld  "), "hello world");
    assert_eq!(clip_title("abcdefghijklmnopqrstuvwxyz0123"), "abcdefghijklmnopqrstuvwxy...");
    assert_eq!(clip_title("exactly twenty-five chars"), "exactly twenty-five chars");
    for t in ["abcdefghijklmnopqrstuvwxyz0123", "short", "ääääääääääää", "a\u{e4}\u{e4}\u{e4}\u{e4}\u{e4}\u{e4}\u{e4}\u{e4}\u{e4}\u{e4}\u{e4}\u{e4}zz"] {
        assert!(clip_title(t).len() <= 28);
    }
}

#[test]
fn text_and_links_are_told_apart() {
    let (item, detail) = text_entry(7, "https://example.com/a b", &app("com.x"), 1000);
    assert!(matches!(item.kind, ClipboardListItemKind::Url { .. }));
    assert_eq!(item.kind.label(), "Link");
    match detail.kind {
        ClipboardKind::Url { characters, title, .. } => {
            assert_eq!(characters, 23);
            assert!(title.is_empty());
        }
        _ => panic!("expected a link"),
    }
    let (item, detail) = text_entry(8, "one two  three", &None, 1000);
    assert_eq!(item.kind.label(), "Text");
    assert_eq!(detail.application, "Unknown");
    assert!(detail.application_icon.is_none());
    match detail.kind {
        ClipboardKind::Text { characters, words, .. } => assert_eq!((characters, words), (14, 3)),
        _ => panic!("expected text"),
    }
    let (item, _) = text_entry(9, "mailto:someone@example.com", &None, 0);
    assert_eq!(item.kind.label(), "Text");
    let (item, _) = text_entry(9, "ftp://example.com", &None, 0);
    assert_eq!(item.kind.label(), "Text");
}

#[test]
fn images_are_titled_by_size() {
    let (item, detail) = image_entry(42, 640, 480, "/cache/clipboard", &None, 5);
    assert_eq!(item.title, "Image (640x480)");
    assert_eq!(item.copy_count, 1);
    match detail.kind {
        ClipboardKind::Image { path, thumbnail, .. } => {
            assert_eq!(path, "/cache/clipboard/42.png");
            assert_eq!(thumbnail, "/cache/clipboard/42.thumb.png");
        }
        _ => panic!("expected an image"),
    }
}

#[test]
fn copies_again_and_expiry() {
    let (mut item, _) = text_entry(1, "x", &None, 100);
    item.copied_again(500);
    assert_eq!((item.copy_count, item.copied_first, item.copied_last), (2, 100, 500));
    assert!(item.is_expired(1000, 100));
    assert!(!item.is_expired(550, 100));
}

#[test]
fn recording_pauses_and_skips_private_apps() {
    let mut w = ClipboardWatcher::init();
    assert!(should_record(&mut w, &app("com.x")));
    assert!(!should_record(&mut w, &app("com.apple.keychainaccess")));
    w.disabled();
    assert!(!should_record(&mut w, &app("com.x")));
    assert!(w.is_enabled());
    let mut m = ClipboardMonitor::new();
    assert!(m.observe(5));
    assert!(!m.observe(5));
    assert!(m.observe(6));
}

#[test]
fn entry_actions_depend_on_kind() {
    let (item, _) = text_entry(3, "https://rust-lang.org", &None, 1700);
    let entry = item.get_item();
    assert_eq!(entry.meta, Some(1700));
    let labels: Vec<String> = entry.actions.iter().map(|a| a.label.clone()).collect();
    assert_eq!(labels, vec!["Paste", "Open", "Delete"]);
    assert!(entry.preview);
    let (item, _) = image_entry(4, 1, 1, "/c", &None, 0);
    let labels: Vec<String> = item.get_item().actions.iter().map(|a| a.label.clone()).collect();
    assert_eq!(labels, vec!["Paste", "Copy Text to Clipboard", "Delete"]);
}

#[test]
fn preview_table_rows() {
    let (mut item, detail) = text_entry(3, "a b", &app("com.x"), 0);
    let rows = preview_rows(&item, &detail, "Today, 10:00:00", "Today, 09:00:00");
    let keys: Vec<&str> = rows.iter().map(|r| r.0.as_str()).collect();
    assert_eq!(keys, vec!["Application", "Content Type", "Copied", "Characters", "Words"]);
    item.copied_again(1);
    let rows = preview_rows(&item, &detail, "L", "F");
    assert_eq!(rows[2], ("Last Copied".to_string(), "L".to_string()));
    assert_eq!(rows[4], ("Times Copied".to_string(), "2".to_string()));
    let (img, d) = image_entry(1, 3, 4, "/c", &None, 0);
    let rows = preview_rows(&img, &d, "L", "F");
    assert_eq!(rows.last().unwrap(), &("Dimensions".to_string(), "3x4".to_string()));
}

#[test]
fn newest_entries_first() {
    let items = vec![ItemBuilder::new(1).build(), ItemBuilder::new(2).build(), ItemBuilder::new(3).build()];
    let sorted = newest_first(items, vec![-5, 10, 10]);
    let ids: Vec<u64> = sorted.iter().map(|i| i.id).collect();
    assert_eq!(ids, vec![2, 3, 1]);
    assert_eq!(history_filter_options().len(), 4);
}

#[test]
fn list_kinds_follow_kinds() {
    let k = ClipboardKind::Url { url: "u".to_string(), characters: 1, title: String::new() };
    assert!(matches!(ClipboardListItemKind::from_kind(&k), ClipboardListItemKind::Url { url } if url == "u"));
    let (item, _) = ClipboardListItem::new(1, "t", k, &None, 0);
    assert_eq!(item.title, "t");
}

use loungy::fuzzy::fuzzy_match;
use loungy::list::{AsyncListItems, Item, ItemBuilder, List};
use loungy::state::Action;

fn item(id: u64, keyword: &str) -> Item {
    ItemBuilder::new(id)
        .keywords(vec![keyword.to_string()])
        .actions(vec![Action::new("Open", None, false)])
        .build()
}

fn ids(items: &[Item]) -> Vec<u64> {
    items.iter().map(|i| i.id).collect()
}

#[test]
fn fuzzy_match_drops_and_ranks() {
    let items = vec![item(1, "Firefox"), item(2, "Files"), item(3, "Zoom")];
    let r = fuzzy_match("fi", items, false);
    let got = ids(&r);
    assert!(got.contains(&1) && got.contains(&2));
    assert!(!got.contains(&3));
    let all = fuzzy_match("", vec![item(1, "a"), item(2, "b")], false);
    assert_eq!(all.len(), 2);
}

#[test]
fn law_down_then_up_returns() {
    let mut l = List::new(false);
    l.filter(vec![item(10, "a"), item(11, "b"), item(12, "c")]);
    l.reset_selection();
    let first = l.selected;
    l.down(true);
    assert_ne!(l.selected, first);
    l.up(true);
    assert_eq!(l.selected, first);
    assert_eq!(l.up(false), None);
}

#[test]
fn default_action_is_the_first() {
    let mut l = List::new(false);
    l.filter(vec![item(1, "a")]);
    l.reset_selection();
    assert_eq!(l.default_action().map(|a| a.label), Some("Open".to_string()));
}

#[test]
fn async_items_read_back_what_was_written() {
    let mut a = AsyncListItems::new();
    let ev = a.update("Text".to_string(), vec![item(1, "a"), item(2, "b")]);
    assert!(ev.initialized && ev.update);
    assert_eq!(ids(&a.get("Text")), vec![1, 2]);
    assert!(a.get("Link").is_empty());
    a.update("Link".to_string(), vec![item(3, "c")]);
    assert_eq!(ids(&a.all()), vec![1, 2, 3]);
    assert_eq!(ids(&a.select("")), vec![1, 2, 3]);
    assert_eq!(ids(&a.select("Link")), vec![3]);
}

#[test]
fn law_push_twice_is_push_once() {
    let mut a = AsyncListItems::new();
    a.push("Text".to_string(), item(1, "a"));
    a.push("Text".to_string(), item(2, "b"));
    a.push("Text".to_string(), item(1, "a"));
    let once = ids(&a.get("Text"));
    a.push("Text".to_string(), item(1, "a"));
    assert_eq!(ids(&a.get("Text")), once);
    assert_eq!(once, vec![2, 1]);
    assert!(a.remove("Text", 2));
    assert!(!a.remove("Text", 2));
    assert_eq!(ids(&a.get("Text")), vec![1]);
}

#[test]
fn an_empty_query_keeps_every_item_with_keywords_in_order() {
    let bare = ItemBuilder::new(9).build();
    let kept = fuzzy_match("", vec![item(3, "zeta"), bare, item(1, "alpha"), item(2, "beta")], false);
    assert_eq!(ids(&kept), vec![3, 1, 2]);
    let bare = ItemBuilder::new(9).build();
    let kept = fuzzy_match("", vec![item(5, "b"), bare, item(4, "a")], true);
    assert_eq!(ids(&kept), vec![5, 4]);
}

#[test]
fn law_rank_twice_changes_nothing() {
    for path in [false, true] {
        let once = fuzzy_match("fi", vec![item(1, "Firefox"), item(2, "Files"), item(3, "Zoom"), item(4, "fig")], path);
        let first = ids(&once);
        let twice = fuzzy_match("fi", once, path);
        assert_eq!(ids(&twice), first);
    }
}

#[test]
fn path_scores_rank_paths() {
    let r = fuzzy_match("doc", vec![item(1, "/home/me/docs"), item(2, "/tmp/x")], true);
    assert_eq!(ids(&r), vec![1]);
}

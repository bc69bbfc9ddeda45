//! Searchable lists: their items, the selection and how it moves, what
//! filtering does to the scroll position, and item collections that fill in
//! asynchronously under several keys.

use vstd::prelude::*;

use crate::fuzzy::{Score, fuzzy_match};
use crate::state::{Action, Shortcut};

verus! {

/// How an item is drawn: bare, or inside the default selectable frame.
#[derive(Clone, Copy, Debug, PartialEq, Eq, Structural)]
pub enum ItemPreset {
    Plain,
    Default,
}

/// What is shown at the end of an item's row: a text, or a shortcut drawn
/// with its glyphs.
#[derive(Debug)]
pub enum Accessory {
    Text(String),
    Shortcut(Shortcut),
}

/// A copy of an accessory.
pub fn clone_accessory(a: &Option<Accessory>) -> (r: Option<Accessory>)
    ensures
        r == *a,
{
    match a {
        Some(Accessory::Text(t)) => Some(Accessory::Text(t.clone())),
        Some(Accessory::Shortcut(s)) => Some(Accessory::Shortcut(s.clone_shortcut())),
        None => None,
    }
}

/// A copy of an optional text.
fn clone_text(t: &Option<String>) -> (r: Option<String>)
    ensures
        r == *t,
{
    match t {
        Some(s) => Some(s.clone()),
        None => None,
    }
}

/// A list entry, as the list's logic reads it.
#[derive(Debug)]
pub struct Item {
    pub id: u64,
    pub keywords: Vec<String>,
    pub weight: Option<u16>,
    pub actions: Vec<Action>,
    /// Whether selecting the item shows a preview beside the list.
    pub preview: bool,
    pub preset: ItemPreset,
    /// The line shown under the item's title.
    pub subtitle: Option<String>,
    /// What is shown at the end of the item's row.
    pub accessory: Option<Accessory>,
    /// A number the item carries for its view (the time of a copy, say).
    pub meta: Option<i64>,
}

/// An item as a value: its id, keywords, weight, actions, preview flag,
/// preset, subtitle, accessory and meta.
pub struct ItemView {
    pub id: u64,
    pub keywords: Seq<Seq<char>>,
    pub weight: Option<u16>,
    pub actions: Seq<Action>,
    pub preview: bool,
    pub preset: ItemPreset,
    pub subtitle: Option<String>,
    pub accessory: Option<Accessory>,
    pub meta: Option<i64>,
}

impl View for Item {
    type V = ItemView;

    open spec fn view(&self) -> ItemView {
        ItemView {
            id: self.id,
            keywords: self.keywords@.map_values(|k: String| k@),
            weight: self.weight,
            actions: self.actions@,
            preview: self.preview,
            preset: self.preset,
            subtitle: self.subtitle,
            accessory: self.accessory,
            meta: self.meta,
        }
    }
}

/// The values of a sequence of items.
pub open spec fn item_views(s: Seq<Item>) -> Seq<ItemView> {
    s.map_values(|i: Item| i@)
}

impl Item {
    /// A copy of the item.
    pub fn clone_item(&self) -> (r: Item)
        ensures
            r@ == self@,
    {
        let mut keywords: Vec<String> = Vec::new();
        let mut i: usize = 0;
        while i < self.keywords.len()
            invariant
                i <= self.keywords@.len(),
                keywords@ == self.keywords@.take(i as int),
            decreases self.keywords.len() - i,
        {
            keywords.push(self.keywords[i].clone());
            i = i + 1;
            proof {
                assert(keywords@ =~= self.keywords@.take(i as int));
            }
        }
        proof {
            assert(self.keywords@.take(i as int) =~= self.keywords@);
        }
        let mut actions: Vec<Action> = Vec::new();
        let mut j: usize = 0;
        while j < self.actions.len()
            invariant
                j <= self.actions@.len(),
                actions@ == self.actions@.take(j as int),
            decreases self.actions.len() - j,
        {
            actions.push(self.actions[j].clone_action());
            j = j + 1;
            proof {
                assert(actions@ =~= self.actions@.take(j as int));
            }
        }
        proof {
            assert(self.actions@.take(j as int) =~= self.actions@);
        }
        Item {
            id: self.id,
            keywords,
            weight: self.weight,
            actions,
            preview: self.preview,
            preset: self.preset,
            subtitle: clone_text(&self.subtitle),
            accessory: clone_accessory(&self.accessory),
            meta: self.meta,
        }
    }

    /// The item's keywords.
    pub fn get_keywords(&self) -> (r: Vec<String>)
        ensures
            r@.map_values(|k: String| k@) == self.keywords@.map_values(|k: String| k@),
    {
        let c = self.clone_item();
        c.keywords
    }
}

impl Score for Item {
    open spec fn keyword_view(&self) -> Seq<Seq<char>> {
        self.keywords@.map_values(|k: String| k@)
    }

    open spec fn weight_view(&self) -> Option<u16> {
        self.weight
    }

    fn keywords(&self) -> (r: Vec<String>) {
        self.get_keywords()
    }

    fn weight(&self) -> (r: Option<u16>) {
        self.weight
    }
}

/// Builds list items.
pub struct ItemBuilder {
    pub id: u64,
    pub preview: bool,
    pub actions: Vec<Action>,
    pub weight: Option<u16>,
    pub keywords: Vec<String>,
    pub preset: ItemPreset,
    pub subtitle: Option<String>,
    pub accessory: Option<Accessory>,
    pub meta: Option<i64>,
}

/// The builders agree on the subtitle, accessory and meta.
pub open spec fn same_extras(a: ItemBuilder, b: ItemBuilder) -> bool {
    a.subtitle == b.subtitle && a.accessory == b.accessory && a.meta == b.meta
}

impl ItemBuilder {
    /// An item with id `id`, no keywords, no actions, no weight, no preview,
    /// drawn in the default frame.
    pub fn new(id: u64) -> (r: ItemBuilder)
        ensures
            r.id == id,
            !r.preview,
            r.actions@.len() == 0,
            r.weight is None,
            r.keywords@.len() == 0,
            r.preset == ItemPreset::Default,
            r.subtitle is None,
            r.accessory is None,
            r.meta is None,
    {
        ItemBuilder {
            id,
            preview: false,
            actions: Vec::new(),
            weight: None,
            keywords: Vec::new(),
            preset: ItemPreset::Default,
            subtitle: None,
            accessory: None,
            meta: None,
        }
    }

    pub fn subtitle(self, subtitle: String) -> (r: ItemBuilder)
        ensures
            r.subtitle == Some(subtitle),
            r.accessory == self.accessory && r.meta == self.meta,
            r.id == self.id && r.actions == self.actions && r.weight == self.weight,
            r.keywords == self.keywords && r.preset == self.preset && r.preview == self.preview,
    {
        ItemBuilder { subtitle: Some(subtitle), ..self }
    }

    pub fn accessory(self, accessory: Accessory) -> (r: ItemBuilder)
        ensures
            r.accessory == Some(accessory),
            r.subtitle == self.subtitle && r.meta == self.meta,
            r.id == self.id && r.actions == self.actions && r.weight == self.weight,
            r.keywords == self.keywords && r.preset == self.preset && r.preview == self.preview,
    {
        ItemBuilder { accessory: Some(accessory), ..self }
    }

    pub fn meta(self, meta: i64) -> (r: ItemBuilder)
        ensures
            r.meta == Some(meta),
            r.subtitle == self.subtitle && r.accessory == self.accessory,
            r.id == self.id && r.actions == self.actions && r.weight == self.weight,
            r.keywords == self.keywords && r.preset == self.preset && r.preview == self.preview,
    {
        ItemBuilder { meta: Some(meta), ..self }
    }

    pub fn preview(self) -> (r: ItemBuilder)
        ensures
            r.preview,
            r.id == self.id && r.actions == self.actions && r.weight == self.weight,
            r.keywords == self.keywords && r.preset == self.preset,
        same_extras(r, self),
    {
        ItemBuilder { preview: true, ..self }
    }

    pub fn keywords(self, keywords: Vec<String>) -> (r: ItemBuilder)
        ensures
            r.keywords == keywords,
            r.id == self.id && r.actions == self.actions && r.weight == self.weight,
            r.preview == self.preview && r.preset == self.preset,
        same_extras(r, self),
    {
        ItemBuilder { keywords, ..self }
    }

    pub fn actions(self, actions: Vec<Action>) -> (r: ItemBuilder)
        ensures
            r.actions == actions,
            r.id == self.id && r.keywords == self.keywords && r.weight == self.weight,
            r.preview == self.preview && r.preset == self.preset,
        same_extras(r, self),
    {
        ItemBuilder { actions, ..self }
    }

    pub fn weight(self, weight: u16) -> (r: ItemBuilder)
        ensures
            r.weight == Some(weight),
            r.id == self.id && r.keywords == self.keywords && r.actions == self.actions,
            r.preview == self.preview && r.preset == self.preset,
        same_extras(r, self),
    {
        ItemBuilder { weight: Some(weight), ..self }
    }

    pub fn preset(self, preset: ItemPreset) -> (r: ItemBuilder)
        ensures
            r.preset == preset,
            r.id == self.id && r.keywords == self.keywords && r.actions == self.actions,
            r.preview == self.preview && r.weight == self.weight,
        same_extras(r, self),
    {
        ItemBuilder { preset, ..self }
    }

    pub fn build(self) -> (r: Item)
        ensures
            r.id == self.id,
            r.keywords == self.keywords,
            r.weight == self.weight,
            r.actions == self.actions,
            r.preview == self.preview,
            r.preset == self.preset,
            r.subtitle == self.subtitle,
            r.accessory == self.accessory,
            r.meta == self.meta,
    {
        Item {
            id: self.id,
            keywords: self.keywords,
            weight: self.weight,
            actions: self.actions,
            preview: self.preview,
            preset: self.preset,
            subtitle: self.subtitle,
            accessory: self.accessory,
            meta: self.meta,
        }
    }
}

/// The index of the first occurrence of `id` in `ids`, if any.
pub open spec fn first_index(ids: Seq<u64>, id: u64) -> Option<int> {
    if exists|i: int| 0 <= i < ids.len() && ids[i] == id {
        Some(choose|i: int| 0 <= i < ids.len() && ids[i] == id && forall|j: int| 0 <= j < i ==> ids[j] != id)
    } else {
        None
    }
}

/// The first occurrence of `id` is where it occurs with none before.
pub proof fn lemma_first_index(ids: Seq<u64>, id: u64, i: int)
    requires
        0 <= i < ids.len(),
        ids[i] == id,
        forall|j: int| 0 <= j < i ==> ids[j] != id,
    ensures
        first_index(ids, id) == Some(i),
{
    let c = choose|c: int| 0 <= c < ids.len() && ids[c] == id && forall|j: int| 0 <= j < c ==> ids[j] != id;
    if c < i {
        assert(ids[c] != id);
    }
    if c > i {
        assert(ids[i] != id);
    }
}

/// An id that occurs has a first occurrence.
pub proof fn lemma_first_index_some(ids: Seq<u64>, id: u64, i: int)
    requires
        0 <= i < ids.len(),
        ids[i] == id,
    ensures
        first_index(ids, id) matches Some(p) && 0 <= p <= i && ids[p] == id && forall|j: int|
            0 <= j < p ==> ids[j] != id,
    decreases i,
{
    if exists|j: int| 0 <= j < i && ids[j] == id {
        let j = choose|j: int| 0 <= j < i && ids[j] == id;
        lemma_first_index_some(ids, id, j);
    } else {
        lemma_first_index(ids, id, i);
    }
}

/// The ids of some items.
pub open spec fn ids_of(items: Seq<Item>) -> Seq<u64> {
    items.map_values(|x: Item| x.id)
}

/// The index of the first item with id `id`, if any.
pub open spec fn position_of(items: Seq<Item>, id: u64) -> Option<int> {
    first_index(ids_of(items), id)
}

/// The index of the first item value with id `id`, if any.
pub open spec fn view_position(items: Seq<ItemView>, id: u64) -> Option<int> {
    first_index(items.map_values(|x: ItemView| x.id), id)
}

/// The item values `s` without the first one with id `id`.
pub open spec fn without_id(s: Seq<ItemView>, id: u64) -> Seq<ItemView> {
    match view_position(s, id) {
        Some(p) => s.remove(p),
        None => s,
    }
}

/// Locating an id among items or among their values is the same.
pub proof fn lemma_view_position(s: Seq<Item>, id: u64)
    ensures
        view_position(item_views(s), id) == position_of(s, id),
{
    assert(item_views(s).map_values(|x: ItemView| x.id) =~= ids_of(s));
}

/// Finds the first item with id `id`.
pub fn find_id(items: &Vec<Item>, id: u64) -> (r: Option<usize>)
    ensures
        r matches Some(i) ==> position_of(items@, id) == Some(i as int),
        r is None ==> position_of(items@, id) is None,
        r matches Some(i) ==> i < items@.len() && items@[i as int].id == id && forall|j: int|
            0 <= j < i ==> (#[trigger] items@[j]).id != id,
        r is None ==> forall|j: int| 0 <= j < items@.len() ==> (#[trigger] items@[j]).id != id,
{
    let ghost ids = ids_of(items@);
    let mut i: usize = 0;
    while i < items.len()
        invariant
            i <= items@.len(),
            ids == ids_of(items@),
            forall|j: int| 0 <= j < i ==> (#[trigger] items@[j]).id != id,
        decreases items.len() - i,
    {
        if items[i].id == id {
            proof {
                assert forall|j: int| 0 <= j < i implies ids[j] != id by {
                    assert(items@[j].id != id);
                }
                lemma_first_index(ids, id, i as int);
            }
            return Some(i);
        }
        i = i + 1;
    }
    proof {
        assert(!(exists|j: int| 0 <= j < ids.len() && ids[j] == id)) by {
            if exists|j: int| 0 <= j < ids.len() && ids[j] == id {
                let j = choose|j: int| 0 <= j < ids.len() && ids[j] == id;
                assert(items@[j].id != id);
            }
        }
    }
    None
}

/// What changed when the selection moved.
pub struct SelectionChange {
    /// The actions of the newly selected item, or `None` when nothing is
    /// selected (the item actions are then cleared).
    pub actions: Option<Vec<Action>>,
    /// The selected item's preview is to be built anew.
    pub build_preview: bool,
}

/// The index the selection moves to going up: the item before the
/// selected one (staying on the first), or the first item where none is
/// selected.
pub open spec fn up_target(items: Seq<Item>, selected: u64) -> int {
    match position_of(items, selected) {
        Some(i) => if i > 0 {
            i - 1
        } else {
            0
        },
        None => 0,
    }
}

/// The index the selection moves to going down: the item after the
/// selected one (staying on the last), or the first item where none is
/// selected.
pub open spec fn down_target(items: Seq<Item>, selected: u64) -> int {
    match position_of(items, selected) {
        Some(i) => if i < items.len() - 1 {
            i + 1
        } else {
            items.len() - 1
        },
        None => 0,
    }
}

/// The id of the item at `index`, or 0 past the end.
pub open spec fn id_at(items: Seq<Item>, index: int) -> u64 {
    if 0 <= index < items.len() {
        items[index].id
    } else {
        0
    }
}

/// The items' ids are distinct.
pub open spec fn distinct_ids(items: Seq<Item>) -> bool {
    forall|a: int, b: int| 0 <= a < b < items.len() ==> (#[trigger] items[a]).id != (#[trigger] items[b]).id
}

proof fn lemma_position_distinct(items: Seq<Item>, i: int)
    requires
        distinct_ids(items),
        0 <= i < items.len(),
    ensures
        position_of(items, items[i].id) == Some(i),
{
    let ids = ids_of(items);
    assert forall|j: int| 0 <= j < i implies ids[j] != items[i].id by {
        assert(items[j].id != items[i].id);
    }
    lemma_first_index(ids, items[i].id, i);
}

/// With distinct ids, going down and then up comes back to the selected
/// item, unless it was the last; going up and then down comes back unless
/// it was the first.
pub proof fn law_down_then_up(items: Seq<Item>, i: int)
    requires
        distinct_ids(items),
        0 <= i < items.len(),
    ensures
        i < items.len() - 1 ==> id_at(items, up_target(items, id_at(items, down_target(items, items[i].id)))) == items[i].id,
        i > 0 ==> id_at(items, down_target(items, id_at(items, up_target(items, items[i].id)))) == items[i].id,
{
    lemma_position_distinct(items, i);
    if i < items.len() - 1 {
        lemma_position_distinct(items, i + 1);
    }
    if i > 0 {
        lemma_position_distinct(items, i - 1);
    }
}

/// The ids of item values are distinct.
pub open spec fn distinct_view_ids(s: Seq<ItemView>) -> bool {
    forall|a: int, b: int| 0 <= a < b < s.len() ==> (#[trigger] s[a]).id != (#[trigger] s[b]).id
}

proof fn lemma_without_id_gone(s: Seq<ItemView>, id: u64)
    requires
        distinct_view_ids(s),
    ensures
        forall|k: int| 0 <= k < without_id(s, id).len() ==> (#[trigger] without_id(s, id)[k]).id != id,
        distinct_view_ids(without_id(s, id)),
{
    let ids = s.map_values(|x: ItemView| x.id);
    match view_position(s, id) {
        Some(p) => {
            assert(0 <= p < s.len() && ids[p] == id) by {
                let c = choose|c: int| 0 <= c < ids.len() && ids[c] == id && forall|j: int| 0 <= j < c ==> ids[j] != id;
            }
            let w = s.remove(p);
            assert forall|k: int| 0 <= k < w.len() implies (#[trigger] w[k]).id != id by {
                if k < p {
                    assert(w[k] == s[k]);
                    assert(s[k].id != s[p].id);
                } else {
                    assert(w[k] == s[k + 1]);
                    assert(s[p].id != s[k + 1].id);
                }
            }
            assert forall|a: int, b: int| 0 <= a < b < w.len() implies (#[trigger] w[a]).id != (#[trigger] w[b]).id by {
                let a2 = if a < p { a } else { a + 1 };
                let b2 = if b < p { b } else { b + 1 };
                assert(w[a] == s[a2]);
                assert(w[b] == s[b2]);
            }
        },
        None => {
            assert forall|k: int| 0 <= k < s.len() implies (#[trigger] s[k]).id != id by {
                assert(ids[k] == s[k].id);
            }
        },
    }
}

/// Pushing an item under a key keeps the ids there distinct, and pushing
/// the same item twice is pushing it once.
pub proof fn law_push_twice(before: Seq<ItemView>, v: ItemView)
    requires
        distinct_view_ids(before),
    ensures
        distinct_view_ids(without_id(before, v.id).push(v)),
        without_id(without_id(before, v.id).push(v), v.id).push(v) == without_id(before, v.id).push(v),
{
    lemma_without_id_gone(before, v.id);
    let w = without_id(before, v.id);
    let once = w.push(v);
    assert forall|a: int, b: int| 0 <= a < b < once.len() implies (#[trigger] once[a]).id != (#[trigger] once[b]).id by {
        if b == w.len() {
            assert(once[a] == w[a]);
        } else {
            assert(once[a] == w[a]);
            assert(once[b] == w[b]);
        }
    }
    let ids = once.map_values(|x: ItemView| x.id);
    assert forall|j: int| 0 <= j < w.len() implies ids[j] != v.id by {
        assert(ids[j] == w[j].id);
    }
    lemma_first_index(ids, v.id, w.len() as int);
    assert(once.remove(w.len() as int) =~= w);
}

/// A filtered, selectable list.
pub struct List {
    /// The id of the selected item (0 when none was chosen).
    pub selected: u64,
    /// Every item, before filtering.
    pub items_all: Vec<Item>,
    /// The items shown.
    pub items: Vec<Item>,
    /// Lists that start from the bottom select their last item first.
    pub reverse: bool,
    /// The index of the item at the top of the scrolled view.
    pub scroll_top: usize,
    /// The id of the item whose preview is shown.
    pub preview: Option<u64>,
}

impl List {
    /// An empty list.
    pub fn new(reverse: bool) -> (r: List)
        ensures
            r.selected == 0,
            r.items_all@.len() == 0,
            r.items@.len() == 0,
            r.reverse == reverse,
            r.scroll_top == 0,
            r.preview is None,
    {
        List { selected: 0, items_all: Vec::new(), items: Vec::new(), reverse, scroll_top: 0, preview: None }
    }

    /// The selected item's index: the first shown item with the selected id.
    pub fn selected(&self) -> (r: Option<usize>)
        ensures
            r matches Some(i) ==> position_of(self.items@, self.selected) == Some(i as int),
            r is None ==> position_of(self.items@, self.selected) is None,
            r matches Some(i) ==> i < self.items@.len() && self.items@[i as int].id == self.selected,
    {
        find_id(&self.items, self.selected)
    }

    /// Moves the selection one item up (staying on the first); with no
    /// selection, selects the first item. Does nothing without focus.
    /// Returns the index to scroll to.
    pub fn up(&mut self, has_focus: bool) -> (r: Option<usize>)
        ensures
            !has_focus ==> r is None && final(self).selected == old(self).selected,
            has_focus ==> r == Some(up_target(old(self).items@, old(self).selected) as usize)
                && final(self).selected == id_at(old(self).items@, up_target(old(self).items@, old(self).selected)),
            final(self).items == old(self).items,
            final(self).items_all == old(self).items_all,
            final(self).preview == old(self).preview,
            final(self).reverse == old(self).reverse,
    {
        if !has_focus {
            return None;
        }
        let index = match self.selected() {
            Some(i) => if i > 0 {
                i - 1
            } else {
                0
            },
            None => 0,
        };
        self.selected = if index < self.items.len() {
            self.items[index].id
        } else {
            0
        };
        self.scroll_top = index;
        Some(index)
    }

    /// Moves the selection one item down (staying on the last); with no
    /// selection, selects the first item. Does nothing without focus.
    /// Returns the index to scroll to.
    pub fn down(&mut self, has_focus: bool) -> (r: Option<usize>)
        ensures
            !has_focus ==> r is None && final(self).selected == old(self).selected,
            has_focus ==> r == Some(down_target(old(self).items@, old(self).selected) as usize)
                && final(self).selected == id_at(old(self).items@, down_target(old(self).items@, old(self).selected)),
            final(self).items == old(self).items,
            final(self).items_all == old(self).items_all,
            final(self).preview == old(self).preview,
            final(self).reverse == old(self).reverse,
    {
        if !has_focus {
            return None;
        }
        let index = match self.selected() {
            Some(i) => {
                let last = self.items.len() - 1;
                if i < last {
                    i + 1
                } else {
                    last
                }
            },
            None => 0,
        };
        self.selected = if index < self.items.len() {
            self.items[index].id
        } else {
            0
        };
        self.scroll_top = index;
        Some(index)
    }

    /// The first action of the selected item.
    pub fn default_action(&self) -> (r: Option<Action>)
        ensures
            match position_of(self.items@, self.selected) {
                Some(i) => if self.items@[i].actions@.len() > 0 {
                    r == Some(self.items@[i].actions@[0])
                } else {
                    r is None
                },
                None => r is None,
            },
    {
        match self.selected() {
            Some(i) => {
                if self.items[i].actions.len() > 0 {
                    Some(self.items[i].actions[0].clone_action())
                } else {
                    None
                }
            },
            None => None,
        }
    }

    /// Selects the first item (the last in a reversed list) and scrolls to
    /// it; an empty list keeps its selection.
    pub fn reset_selection(&mut self)
        ensures
            old(self).items@.len() == 0 ==> final(self).selected == old(self).selected && final(self).scroll_top
                == old(self).scroll_top,
            old(self).items@.len() > 0 ==> {
                let s: int = if old(self).reverse {
                    old(self).items@.len() - 1
                } else {
                    0
                };
                final(self).selected == old(self).items@[s].id && final(self).scroll_top == s
            },
            final(self).items == old(self).items,
            final(self).items_all == old(self).items_all,
            final(self).preview == old(self).preview,
            final(self).reverse == old(self).reverse,
    {
        if self.items.len() == 0 {
            return;
        }
        let s = if self.reverse {
            self.items.len() - 1
        } else {
            0
        };
        self.selected = self.items[s].id;
        self.scroll_top = s;
    }

    /// Shows `items` (what the list's filter kept of `items_all`): the item
    /// that was at the top of the view stays there if it is still shown,
    /// and a selection that is no longer shown moves to the first item.
    pub fn filter(&mut self, items: Vec<Item>)
        ensures
            final(self).items == items,
            final(self).scroll_top == if old(self).scroll_top < old(self).items@.len() {
                match position_of(items@, old(self).items@[old(self).scroll_top as int].id) {
                    Some(i) => i as usize,
                    None => old(self).scroll_top,
                }
            } else {
                old(self).scroll_top
            } || (position_of(items@, old(self).selected) is None && items@.len() > 0),
            position_of(items@, old(self).selected) is Some ==> final(self).selected == old(self).selected,
            position_of(items@, old(self).selected) is None ==> {
                if items@.len() > 0 {
                    let s: int = if old(self).reverse {
                        items@.len() - 1
                    } else {
                        0
                    };
                    final(self).selected == items@[s].id && final(self).scroll_top == s
                } else {
                    final(self).selected == old(self).selected
                }
            },
            final(self).items_all == old(self).items_all,
            final(self).preview == old(self).preview,
            final(self).reverse == old(self).reverse,
    {
        let mut scroll = self.scroll_top;
        if scroll < self.items.len() {
            let top_id = self.items[scroll].id;
            if let Some(i) = find_id(&items, top_id) {
                scroll = i;
            }
        }
        self.items = items;
        self.scroll_top = scroll;
        if self.selected().is_none() {
            self.reset_selection();
        }
    }

    /// The default filter: the fuzzy match of `query` against every item.
    pub fn default_filter(&self, query: &str) -> (r: Vec<Item>)
        ensures
            exists|scores: Seq<Option<u16>>, copies: Seq<Item>|
                {
                    &&& copies.len() == self.items_all@.len()
                    &&& forall|i: int|
                        0 <= i < copies.len() ==> (#[trigger] copies[i])@ == self.items_all@[i]@
                            && copies[i].id == self.items_all@[i].id
                            && copies[i].keyword_view() == self.items_all@[i].keyword_view()
                            && copies[i].weight == self.items_all@[i].weight && copies[i].actions@
                            == self.items_all@[i].actions@
                    &&& scores.len() == copies.len()
                    &&& forall|i: int|
                        0 <= i < copies.len() ==> #[trigger] scores[i] == crate::fuzzy::item_score(
                            query@,
                            copies[i].keyword_view(),
                            copies[i].weight_view(),
                        )
                    &&& crate::fuzzy::ranked_from(r@, copies, scores)
                },
    {
        let mut copies: Vec<Item> = Vec::new();
        let mut i: usize = 0;
        while i < self.items_all.len()
            invariant
                i <= self.items_all@.len(),
                copies@.len() == i,
                forall|k: int|
                    0 <= k < i ==> (#[trigger] copies@[k])@ == self.items_all@[k]@
                        && copies@[k].id == self.items_all@[k].id
                        && copies@[k].keyword_view() == self.items_all@[k].keyword_view()
                        && copies@[k].weight == self.items_all@[k].weight && copies@[k].actions@
                        == self.items_all@[k].actions@,
            decreases self.items_all.len() - i,
        {
            let c = self.items_all[i].clone_item();
            copies.push(c);
            i = i + 1;
        }
        let ghost cv = copies@;
        let r = fuzzy_match(query, copies, false);
        proof {
            let scores = choose|scores: Seq<Option<u16>>|
                {
                    &&& scores.len() == cv.len()
                    &&& forall|i: int|
                        0 <= i < cv.len() ==> #[trigger] scores[i] == crate::fuzzy::item_score(
                            query@,
                            cv[i].keyword_view(),
                            cv[i].weight_view(),
                        )
                    &&& crate::fuzzy::ranked_from(r@, cv, scores)
                };
            assert(crate::fuzzy::ranked_from(r@, cv, scores));
        }
        r
    }

    /// The selection moved: the actions to offer, and whether the selected
    /// item's preview is to be built (a preview already shown for the same
    /// item is kept).
    pub fn on_selection_change(&mut self) -> (r: SelectionChange)
        ensures
            match position_of(old(self).items@, old(self).selected) {
                Some(i) => {
                    let item = old(self).items@[i];
                    &&& r.actions is Some && r.actions->0@ == item.actions@
                    &&& if item.preview {
                        let shown = match old(self).preview {
                            Some(p) => p,
                            None => 0u64,
                        };
                        &&& r.build_preview == (item.id != shown)
                        &&& final(self).preview == if item.id != shown {
                            Some(item.id)
                        } else {
                            old(self).preview
                        }
                    } else {
                        !r.build_preview && final(self).preview is None
                    }
                },
                None => r.actions is None && !r.build_preview && final(self).preview is None,
            },
            final(self).items == old(self).items,
            final(self).items_all == old(self).items_all,
            final(self).selected == old(self).selected,
    {
        match self.selected() {
            Some(i) => {
                let item = self.items[i].clone_item();
                let shown = match self.preview {
                    Some(p) => p,
                    None => 0,
                };
                let build = if item.preview {
                    if item.id != shown {
                        self.preview = Some(item.id);
                        true
                    } else {
                        false
                    }
                } else {
                    self.preview = None;
                    false
                };
                SelectionChange { actions: Some(item.actions), build_preview: build }
            },
            None => {
                self.preview = None;
                SelectionChange { actions: None, build_preview: false }
            },
        }
    }

    /// A click on the item at `ix`: one click selects it, a double click
    /// runs its first action.
    pub fn on_click(&mut self, ix: usize, click_count: usize) -> (r: Option<Action>)
        requires
            ix < old(self).items@.len(),
        ensures
            click_count == 1 ==> final(self).selected == old(self).items@[ix as int].id && r is None,
            click_count == 2 ==> final(self).selected == old(self).selected && if old(
                self,
            ).items@[ix as int].actions@.len() > 0 {
                r == Some(old(self).items@[ix as int].actions@[0])
            } else {
                r is None
            },
            click_count != 1 && click_count != 2 ==> final(self).selected == old(self).selected && r is None,
            final(self).items == old(self).items,
    {
        if click_count == 1 {
            self.selected = self.items[ix].id;
            None
        } else if click_count == 2 {
            if self.items[ix].actions.len() > 0 {
                Some(self.items[ix].actions[0].clone_action())
            } else {
                None
            }
        } else {
            None
        }
    }
}

/// What an update of an async item collection tells its observers.
pub struct AsyncEvents {
    /// The collection got its first items.
    pub initialized: bool,
    /// The collection changed.
    pub update: bool,
}

/// Items gathered in the background, under keys (one per account, per
/// content type, ...).
pub struct AsyncListItems {
    /// The items under each key; keys are distinct.
    pub items: Vec<(String, Vec<Item>)>,
    pub initialized: bool,
}

/// Index of the entry under `key`, if any.
pub open spec fn key_index(entries: Seq<(String, Vec<Item>)>, key: Seq<char>) -> Option<int> {
    if exists|i: int| 0 <= i < entries.len() && (#[trigger] entries[i]).0@ == key {
        Some(choose|i: int| 0 <= i < entries.len() && (#[trigger] entries[i]).0@ == key)
    } else {
        None
    }
}

/// The item values under `key` in `entries`, if there is such a key.
pub open spec fn entries_under(entries: Seq<(String, Vec<Item>)>, key: Seq<char>) -> Option<Seq<ItemView>> {
    match key_index(entries, key) {
        Some(i) => Some(item_views(entries[i].1@)),
        None => None,
    }
}

/// The keys of `entries` are distinct.
pub open spec fn distinct_keys(entries: Seq<(String, Vec<Item>)>) -> bool {
    forall|i: int, j: int| 0 <= i < j < entries.len() ==> (#[trigger] entries[i]).0@ != (#[trigger] entries[j]).0@
}

/// With distinct keys, the entry under a key is the one that has it.
pub proof fn lemma_key_index(entries: Seq<(String, Vec<Item>)>, key: Seq<char>, i: int)
    requires
        distinct_keys(entries),
        0 <= i < entries.len(),
        entries[i].0@ == key,
    ensures
        key_index(entries, key) == Some(i),
{
    let c = choose|c: int| 0 <= c < entries.len() && (#[trigger] entries[c]).0@ == key;
    if c < i {
        assert(entries[c].0@ != entries[i].0@);
    }
    if c > i {
        assert(entries[i].0@ != entries[c].0@);
    }
}

/// Entries that only differ under `key`, or by entries under `key` added at
/// the end, agree under every other key.
pub proof fn lemma_entries_frame(
    before: Seq<(String, Vec<Item>)>,
    after: Seq<(String, Vec<Item>)>,
    key: Seq<char>,
    k: Seq<char>,
)
    requires
        distinct_keys(before),
        distinct_keys(after),
        before.len() <= after.len(),
        forall|j: int| 0 <= j < before.len() ==> (#[trigger] after[j]).0@ == before[j].0@,
        forall|j: int| 0 <= j < before.len() && (#[trigger] before[j]).0@ != key ==> after[j].1@ == before[j].1@,
        forall|j: int| before.len() <= j < after.len() ==> (#[trigger] after[j]).0@ == key,
        k != key,
    ensures
        entries_under(after, k) == entries_under(before, k),
{
    if exists|j: int| 0 <= j < before.len() && (#[trigger] before[j]).0@ == k {
        let j = choose|j: int| 0 <= j < before.len() && (#[trigger] before[j]).0@ == k;
        lemma_key_index(before, k, j);
        lemma_key_index(after, k, j);
    } else {
        assert forall|j: int| 0 <= j < after.len() implies (#[trigger] after[j]).0@ != k by {
            if j < before.len() {
                assert(before[j].0@ != k);
            }
        }
    }
}

impl AsyncListItems {
    /// Keys are distinct.
    pub open spec fn wf(&self) -> bool {
        distinct_keys(self.items@)
    }

    /// The items under `key`, if there is such a key.
    pub open spec fn items_under(&self, key: Seq<char>) -> Option<Seq<ItemView>> {
        entries_under(self.items@, key)
    }

    pub fn new() -> (r: AsyncListItems)
        ensures
            r.wf(),
            r.items@.len() == 0,
            !r.initialized,
    {
        AsyncListItems { items: Vec::new(), initialized: false }
    }

    fn find_key(&self, key: &str) -> (r: Option<usize>)
        requires
            self.wf(),
        ensures
            r matches Some(i) ==> key_index(self.items@, key@) == Some(i as int) && i < self.items@.len(),
            r is None ==> key_index(self.items@, key@) is None,
    {
        let mut i: usize = 0;
        while i < self.items.len()
            invariant
                i <= self.items@.len(),
                self.wf(),
                forall|j: int| 0 <= j < i ==> (#[trigger] self.items@[j]).0@ != key@,
            decreases self.items.len() - i,
        {
            if crate::chars::same_str(self.items[i].0.as_str(), key) {
                proof {
                    lemma_key_index(self.items@, key@, i as int);
                }
                return Some(i);
            }
            i = i + 1;
        }
        None
    }

    /// Replaces the items under `key`.
    pub fn update(&mut self, key: String, items: Vec<Item>) -> (r: AsyncEvents)
        requires
            old(self).wf(),
        ensures
            final(self).wf(),
            final(self).items_under(key@) == Some(item_views(items@)),
            forall|k: Seq<char>| k != key@ ==> #[trigger] final(self).items_under(k) == old(self).items_under(k),
            final(self).initialized,
            r.initialized == !old(self).initialized,
            r.update,
    {
        let ghost old_items = self.items@;
        let first = !self.initialized;
        self.initialized = true;
        match self.find_key(key.as_str()) {
            Some(i) => {
                let k = self.items[i].0.clone();
                self.items.set(i, (k, items));
                proof {
                    lemma_key_index(old_items, key@, i as int);
                    assert forall|a: int, b: int|
                        0 <= a < b < self.items@.len() implies (#[trigger] self.items@[a]).0@ != (
                        #[trigger] self.items@[b]).0@ by {
                        assert(old_items[a].0@ != old_items[b].0@);
                    }
                    lemma_key_index(self.items@, key@, i as int);
                }
            },
            None => {
                self.items.push((key, items));
                proof {
                    let n = old_items.len() as int;
                    assert forall|a: int, b: int|
                        0 <= a < b < self.items@.len() implies (#[trigger] self.items@[a]).0@ != (
                        #[trigger] self.items@[b]).0@ by {
                        if b == n {
                            assert(old_items[a].0@ != self.items@[b].0@);
                        } else {
                            assert(old_items[a].0@ != old_items[b].0@);
                        }
                    }
                    lemma_key_index(self.items@, key@, n);
                }
            },
        }
        proof {
            assert forall|k: Seq<char>| k != key@ implies #[trigger] self.items_under(k) == old(self).items_under(k) by {
                lemma_entries_frame(old_items, self.items@, key@, k);
            }
        }
        AsyncEvents { initialized: first, update: true }
    }

    /// Adds `item` at the end of the items under `key` (creating the key),
    /// first removing an item with the same id.
    pub fn push(&mut self, key: String, item: Item) -> (r: AsyncEvents)
        requires
            old(self).wf(),
        ensures
            final(self).wf(),
            ({
                let before = match old(self).items_under(key@) {
                    Some(s) => s,
                    None => Seq::empty(),
                };
                final(self).items_under(key@) == Some(without_id(before, item.id).push(item@))
            }),
            forall|k: Seq<char>| k != key@ ==> #[trigger] final(self).items_under(k) == old(self).items_under(k),
            final(self).initialized,
            r.initialized == !old(self).initialized,
            r.update,
    {
        let mut list = self.get(key.as_str());
        let ghost before = match old(self).items_under(key@) {
            Some(s) => s,
            None => Seq::empty(),
        };
        proof {
            if old(self).items_under(key@) is None {
                assert(item_views(list@) =~= before);
            }
            assert(item_views(list@) == before);
            lemma_view_position(list@, item.id);
        }
        let found = find_id(&list, item.id);
        if let Some(p) = found {
            let ghost prev = list@;
            list.remove(p);
            proof {
                assert(item_views(list@) =~= item_views(prev).remove(p as int));
            }
        }
        let ghost kept = item_views(list@);
        assert(kept == without_id(before, item.id));
        let ghost id_view = item@;
        list.push(item);
        proof {
            assert(item_views(list@) =~= kept.push(id_view));
        }
        self.update(key, list)
    }

    /// A copy of item `j` under entry `i`, with the same fields.
    fn take_copy(&self, i: usize, j: usize) -> (r: Item)
        requires
            i < self.items@.len(),
            j < self.items@[i as int].1@.len(),
        ensures
            r@ == self.items@[i as int].1@[j as int]@,
    {
        self.items[i].1[j].clone_item()
    }

    /// Removes the first item with id `id` under `key`; tells whether one
    /// was removed (an update event is then due).
    #[verifier::rlimit(40)]
    pub fn remove(&mut self, key: &str, id: u64) -> (removed: bool)
        requires
            old(self).wf(),
        ensures
            final(self).wf(),
            final(self).initialized == old(self).initialized,
            match old(self).items_under(key@) {
                Some(s) => match view_position(s, id) {
                    Some(p) => removed && final(self).items_under(key@) == Some(s.remove(p)),
                    None => !removed && final(self).items == old(self).items,
                },
                None => !removed && final(self).items == old(self).items,
            },
            forall|k: Seq<char>| k != key@ ==> #[trigger] final(self).items_under(k) == old(self).items_under(k),
    {
        match self.find_key(key) {
            Some(i) => {
                let mut v = self.get(key);
                let ghost s = item_views(self.items@[i as int].1@);
                proof {
                    assert(old(self).items_under(key@) == Some(s));
                    assert(item_views(v@) == s);
                    lemma_view_position(v@, id);
                }
                match find_id(&v, id) {
                    Some(p) => {
                        let ghost before = item_views(v@);
                        v.remove(p);
                        proof {
                            assert(item_views(v@) =~= before.remove(p as int));
                        }
                        let k = self.items[i].0.clone();
                        let ghost old_items = self.items@;
                        self.items.set(i, (k, v));
                        proof {
                            assert forall|a: int, b: int|
                                0 <= a < b < self.items@.len() implies (#[trigger] self.items@[a]).0@ != (
                                #[trigger] self.items@[b]).0@ by {
                                assert(old_items[a].0@ != old_items[b].0@);
                            }
                            lemma_key_index(self.items@, key@, i as int);
                            assert forall|k: Seq<char>| k != key@ implies #[trigger] self.items_under(k)
                                == old(self).items_under(k) by {
                                lemma_entries_frame(old_items, self.items@, key@, k);
                            }
                        }
                        true
                    },
                    None => false,
                }
            },
            None => false,
        }
    }

    /// Every item, key by key in the order the keys were added.
    pub fn all(&self) -> (r: Vec<Item>)
        ensures
            item_views(r@) == self.items@.map_values(|e: (String, Vec<Item>)| item_views(e.1@)).flatten(),
    {
        let mut r: Vec<Item> = Vec::new();
        let mut i: usize = 0;
        while i < self.items.len()
            invariant
                i <= self.items@.len(),
                item_views(r@) == self.items@.take(i as int).map_values(|e: (String, Vec<Item>)| item_views(e.1@)).flatten(),
            decreases self.items.len() - i,
        {
            let ghost before = item_views(r@);
            let mut j: usize = 0;
            while j < self.items[i].1.len()
                invariant
                    i < self.items@.len(),
                    j <= self.items@[i as int].1@.len(),
                    item_views(r@) == before + item_views(self.items@[i as int].1@.take(j as int)),
                decreases self.items[i as int].1@.len() - j,
            {
                let ghost prev = r@;
                let c = self.take_copy(i, j);
                r.push(c);
                j = j + 1;
                proof {
                    assert(item_views(r@) =~= item_views(prev).push(c@));
                    assert(item_views(self.items@[i as int].1@.take(j as int)) =~= item_views(
                        self.items@[i as int].1@.take(j - 1),
                    ).push(self.items@[i as int].1@[j - 1]@));
                    assert(item_views(r@) =~= before + item_views(self.items@[i as int].1@.take(j as int)));
                }
            }
            proof {
                let f = |e: (String, Vec<Item>)| item_views(e.1@);
                assert(self.items@[i as int].1@.take(j as int) =~= self.items@[i as int].1@);
                assert(self.items@.take(i + 1).map_values(f) =~= self.items@.take(i as int).map_values(f).push(
                    item_views(self.items@[i as int].1@),
                ));
                self.items@.take(i as int).map_values(f).lemma_flatten_push(item_views(self.items@[i as int].1@));
            }
            i = i + 1;
        }
        proof {
            assert(self.items@.take(i as int) =~= self.items@);
        }
        r
    }

    /// The items a list shows for the filter value `key`: all of them
    /// where it is empty, else those under it.
    pub fn select(&self, key: &str) -> (r: Vec<Item>)
        requires
            self.wf(),
        ensures
            key@.len() == 0 ==> item_views(r@) == self.items@.map_values(
                |e: (String, Vec<Item>)| item_views(e.1@),
            ).flatten(),
            key@.len() > 0 ==> match self.items_under(key@) {
                Some(s) => item_views(r@) == s,
                None => r@.len() == 0,
            },
    {
        if key.unicode_len() == 0 {
            self.all()
        } else {
            self.get(key)
        }
    }

    /// The items under `key`, or none.
    pub fn get(&self, key: &str) -> (r: Vec<Item>)
        requires
            self.wf(),
        ensures
            match self.items_under(key@) {
                Some(s) => item_views(r@) == s,
                None => r@.len() == 0,
            },
    {
        match self.find_key(key) {
            Some(i) => {
                let mut v: Vec<Item> = Vec::new();
                let mut j: usize = 0;
                while j < self.items[i].1.len()
                    invariant
                        i < self.items@.len(),
                        j <= self.items@[i as int].1@.len(),
                        v@.len() == j,
                        forall|k: int| 0 <= k < j ==> (#[trigger] v@[k])@ == self.items@[i as int].1@[k]@,
                    decreases self.items[i as int].1@.len() - j,
                {
                    v.push(self.take_copy(i, j));
                    j = j + 1;
                }
                proof {
                    assert(item_views(v@) =~= item_views(self.items@[i as int].1@));
                }
                v
            },
            None => Vec::new(),
        }
    }
}

} // verus!

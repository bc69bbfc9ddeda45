//! Clipboard history: what an entry records of copied text or an image,
//! how it is titled and listed, when a copy is recorded at all, and what its
//! preview shows.

use vstd::prelude::*;

use crate::chars::{char_len_utf8, chars_of, str_concat, string_of, utf8_len};
use crate::keys::Modifiers;
use crate::list::{Item, ItemBuilder};
use crate::num::{decimal, decimal_spec};
use crate::paths::{join_spec, path_join};
use crate::platform::AppData;
use crate::sort::{before_desc, covers, is_desc_order, sort_desc, sorted_desc_from};
use crate::state::{Action, ClipboardWatcher, Shortcut, action_is};
use crate::strs::{replace, replace_spec};
use crate::web::{is_web_link_spec, text_is_web_link, url_parse};
use crate::words::{split_whitespace, trim, trim_spec, words_spec};

verus! {

/// What was copied, with what the preview shows of it.
#[derive(Debug)]
pub enum ClipboardKind {
    Text { characters: u64, words: u64, text: String },
    Url { url: String, characters: u64, title: String },
    Image { width: u32, height: u32, thumbnail: String, path: String },
}

/// What the list keeps of an entry's kind.
#[derive(Debug)]
pub enum ClipboardListItemKind {
    Text,
    Url { url: String },
    Image { thumbnail: String },
}

/// A list kind as a value.
pub enum ListKindView {
    Text,
    Url(Seq<char>),
    Image(Seq<char>),
}

/// The value of a list kind.
pub open spec fn list_kind_view(kind: ClipboardListItemKind) -> ListKindView {
    match kind {
        ClipboardListItemKind::Text => ListKindView::Text,
        ClipboardListItemKind::Url { url } => ListKindView::Url(url@),
        ClipboardListItemKind::Image { thumbnail } => ListKindView::Image(thumbnail@),
    }
}

/// The value of the list kind of a kind (`From<ClipboardKind>`).
pub open spec fn kind_list_view(kind: ClipboardKind) -> ListKindView {
    match kind {
        ClipboardKind::Text { .. } => ListKindView::Text,
        ClipboardKind::Url { url, .. } => ListKindView::Url(url@),
        ClipboardKind::Image { thumbnail, .. } => ListKindView::Image(thumbnail@),
    }
}

/// The label of a list kind, which is also the key its entries are kept
/// under.
pub open spec fn kind_label_spec(kind: ClipboardListItemKind) -> Seq<char> {
    match kind {
        ClipboardListItemKind::Text => "Text"@,
        ClipboardListItemKind::Url { .. } => "Link"@,
        ClipboardListItemKind::Image { .. } => "Image"@,
    }
}

impl ClipboardKind {
    /// A copy of the kind.
    pub fn clone_kind(&self) -> (r: ClipboardKind)
        ensures
            match (r, *self) {
                (
                    ClipboardKind::Text { characters: c1, words: w1, text: t1 },
                    ClipboardKind::Text { characters: c2, words: w2, text: t2 },
                ) => c1 == c2 && w1 == w2 && t1@ == t2@,
                (
                    ClipboardKind::Url { url: u1, characters: c1, title: t1 },
                    ClipboardKind::Url { url: u2, characters: c2, title: t2 },
                ) => u1@ == u2@ && c1 == c2 && t1@ == t2@,
                (
                    ClipboardKind::Image { width: w1, height: h1, thumbnail: t1, path: p1 },
                    ClipboardKind::Image { width: w2, height: h2, thumbnail: t2, path: p2 },
                ) => w1 == w2 && h1 == h2 && t1@ == t2@ && p1@ == p2@,
                _ => false,
            },
    {
        match self {
            ClipboardKind::Text { characters, words, text } => ClipboardKind::Text {
                characters: *characters,
                words: *words,
                text: text.clone(),
            },
            ClipboardKind::Url { url, characters, title } => ClipboardKind::Url {
                url: url.clone(),
                characters: *characters,
                title: title.clone(),
            },
            ClipboardKind::Image { width, height, thumbnail, path } => ClipboardKind::Image {
                width: *width,
                height: *height,
                thumbnail: thumbnail.clone(),
                path: path.clone(),
            },
        }
    }
}

impl ClipboardListItemKind {
    /// What the list keeps of `kind` (`From<ClipboardKind>`).
    pub fn from_kind(kind: &ClipboardKind) -> (r: ClipboardListItemKind)
        ensures
            list_kind_view(r) == kind_list_view(*kind),
    {
        match kind {
            ClipboardKind::Text { .. } => ClipboardListItemKind::Text,
            ClipboardKind::Url { url, .. } => ClipboardListItemKind::Url { url: url.clone() },
            ClipboardKind::Image { thumbnail, .. } => ClipboardListItemKind::Image { thumbnail: thumbnail.clone() },
        }
    }

    /// `"Text"`, `"Link"` or `"Image"` (`From<ClipboardListItemKind> for
    /// String`).
    pub fn label(&self) -> (r: String)
        ensures
            r@ == kind_label_spec(*self),
    {
        match self {
            ClipboardListItemKind::Text => "Text".to_string(),
            ClipboardListItemKind::Url { .. } => "Link".to_string(),
            ClipboardListItemKind::Image { .. } => "Image".to_string(),
        }
    }

    /// A copy of the list kind.
    pub fn clone_list_kind(&self) -> (r: ClipboardListItemKind)
        ensures
            list_kind_view(r) == list_kind_view(*self),
    {
        match self {
            ClipboardListItemKind::Text => ClipboardListItemKind::Text,
            ClipboardListItemKind::Url { url } => ClipboardListItemKind::Url { url: url.clone() },
            ClipboardListItemKind::Image { thumbnail } => ClipboardListItemKind::Image { thumbnail: thumbnail.clone() },
        }
    }
}

/// A clipboard entry as the history lists it. Times are milliseconds since
/// the Unix epoch.
#[derive(Debug)]
pub struct ClipboardListItem {
    pub id: u64,
    pub title: String,
    pub copied_first: i64,
    pub copied_last: i64,
    pub kind: ClipboardListItemKind,
    pub copy_count: u32,
}

/// What the preview shows of an entry beside its list data.
#[derive(Debug)]
pub struct ClipboardDetail {
    pub id: u64,
    pub application: String,
    pub application_icon: Option<String>,
    pub kind: ClipboardKind,
}

/// The applications whose copies are never recorded.
pub open spec fn is_excluded_app(id: Seq<char>) -> bool {
    id == "com.apple.systempreferences"@ || id == "com.apple.keychainaccess"@
}

/// Whether a copy made in `app` is recorded: not while the watcher is
/// switched off (which switches it back on), and never from an excluded
/// application.
pub fn should_record(watcher: &mut ClipboardWatcher, app: &Option<AppData>) -> (r: bool)
    ensures
        r == (old(watcher).enabled && !(app matches Some(a) && is_excluded_app(a.id@))),
        final(watcher).enabled,
{
    if !watcher.is_enabled() {
        watcher.enabled();
        return false;
    }
    match app {
        Some(a) => {
            let id = a.id.as_str();
            !(crate::chars::same_str(id, "com.apple.systempreferences") || crate::chars::same_str(
                id,
                "com.apple.keychainaccess",
            ))
        },
        None => true,
    }
}

/// The hash of the last clipboard content seen.
pub struct ClipboardMonitor {
    pub last_hash: u64,
}

impl ClipboardMonitor {
    /// A monitor that has seen nothing (hash 0).
    pub fn new() -> (r: ClipboardMonitor)
        ensures
            r.last_hash == 0,
    {
        ClipboardMonitor { last_hash: 0 }
    }

    /// Notes content with hash `hash`; whether it differs from the last.
    pub fn observe(&mut self, hash: u64) -> (changed: bool)
        ensures
            changed == (hash != old(self).last_hash),
            final(self).last_hash == hash,
    {
        let changed = hash != self.last_hash;
        self.last_hash = hash;
        changed
    }
}

/// `t` has a character boundary `n` bytes in.
pub open spec fn has_byte_boundary(t: Seq<char>, n: nat) -> bool {
    exists|k: int| 0 <= k <= t.len() && #[trigger] utf8_len(t.take(k)) == n
}

/// The text an entry's title is made from: trimmed, with each line feed
/// replaced by a space.
pub open spec fn title_text(text: Seq<char>) -> Seq<char> {
    replace_spec(trim_spec(text), "\n"@, " "@)
}

/// Whether `clip_title` can cut `text`'s title: where the title text is
/// longer than 25 bytes, byte 25 is a character boundary.
pub open spec fn title_cuttable(text: Seq<char>) -> bool {
    utf8_len(title_text(text)) > 25 ==> has_byte_boundary(title_text(text), 25)
}

/// The title is `t` itself where it holds at most 25 bytes, else its first
/// 25 bytes and `...`.
pub open spec fn is_clip_title(t: Seq<char>, r: Seq<char>) -> bool {
    if utf8_len(t) <= 25 {
        r == t
    } else {
        exists|k: int| 0 <= k <= t.len() && #[trigger] utf8_len(t.take(k)) == 25 && r == t.take(k) + "..."@
    }
}

/// One more character makes the encoding longer.
pub proof fn lemma_utf8_len_strict(s: Seq<char>, i: int, j: int)
    requires
        0 <= i < j <= s.len(),
    ensures
        utf8_len(s.take(i)) < utf8_len(s.take(j)),
    decreases j - i,
{
    assert(s.take(j).drop_last() =~= s.take(j - 1));
    if i < j - 1 {
        lemma_utf8_len_strict(s, i, j - 1);
    }
}

/// The title of copied text: trimmed, line feeds turned into spaces, and
/// past 25 bytes cut there with `...` after.
pub fn clip_title(text: &str) -> (r: String)
    requires
        title_cuttable(text@),
    ensures
        is_clip_title(title_text(text@), r@),
        utf8_len(r@) <= 28,
{
    let trimmed = trim(text);
    proof {
        reveal_strlit("\n");
    }
    let t = replace(trimmed.as_str(), "\n", " ");
    let v = chars_of(t.as_str());
    let n = v.len();
    let mut total: usize = 0;
    let mut i: usize = 0;
    while i < n && total <= 25
        invariant
            n == v@.len(),
            i <= n,
            total <= 29,
            total == utf8_len(v@.take(i as int)),
            i > 0 ==> utf8_len(v@.take(i - 1)) <= 25,
        decreases n - i,
    {
        proof {
            assert(v@.take(i + 1).drop_last() =~= v@.take(i as int));
        }
        total = total + char_len_utf8(v[i]);
        i = i + 1;
    }
    if total <= 25 {
        proof {
            assert(v@.take(n as int) =~= v@);
        }
        return t;
    }
    proof {
        crate::chars::lemma_utf8_len_prefix_mono(v@, i as int, n as int);
        assert(v@.take(n as int) =~= v@);
        assert(has_byte_boundary(v@, 25));
        let k = choose|k: int| 0 <= k <= v@.len() && #[trigger] utf8_len(v@.take(k)) == 25;
        if k < i - 1 {
            lemma_utf8_len_strict(v@, k, i - 1);
        } else if k >= i {
            if k > i {
                lemma_utf8_len_strict(v@, i as int, k);
            }
        }
        assert(k == i - 1);
        if i < n {
            lemma_utf8_len_strict(v@, i as int, n as int);
        }
        assert(v@.take(n as int) =~= v@);
    }
    let mut out: Vec<char> = Vec::new();
    let mut j: usize = 0;
    while j < i - 1
        invariant
            n == v@.len(),
            i <= n,
            i >= 1,
            j <= i - 1,
            out@ == v@.take(j as int),
        decreases i - 1 - j,
    {
        out.push(v[j]);
        j = j + 1;
        proof {
            assert(out@ =~= v@.take(j as int));
        }
    }
    let head = string_of(out.as_slice());
    proof {
        reveal_strlit("...");
        crate::chars::lemma_utf8_len_concat(head@, "..."@);
        assert("..."@ =~= seq!['.', '.', '.']);
        assert(seq!['.', '.', '.'].drop_last() =~= seq!['.', '.']);
        assert(seq!['.', '.'].drop_last() =~= seq!['.']);
        assert(seq!['.'].drop_last() =~= Seq::<char>::empty());
        assert(crate::chars::char_width('.') == 1);
        assert(utf8_len(Seq::<char>::empty()) == 0);
        assert(utf8_len(seq!['.']) == 1);
        assert(utf8_len(seq!['.', '.']) == 2);
        assert(utf8_len(seq!['.', '.', '.']) == 3);
        assert(utf8_len("..."@) == 3);
    }
    str_concat(head.as_str(), "...")
}

/// The number of characters of `s`, as the `u64` that
/// `s.chars().count() as u64` gives.
pub fn char_count(s: &str) -> (r: u64)
    requires
        s@.len() <= u64::MAX,
    ensures
        r == s@.len(),
{
    let v = chars_of(s);
    v.len() as u64
}

/// The kind recorded for copied `text`: a link where it parses as one,
/// with its character count and an empty title; else text with its
/// character and word counts.
pub open spec fn text_kind_spec(text: Seq<char>, link: bool, r: ClipboardKind) -> bool {
    if link {
        r matches ClipboardKind::Url { url, characters, title } && url@ == text && characters == text.len()
            && title@.len() == 0
    } else {
        r matches ClipboardKind::Text { characters, words, text: t } && characters == text.len() && words
            == words_spec(text).len() && t@ == text
    }
}

/// The kind recorded for copied `text`, given whether it is a web link.
pub fn text_kind(text: &str, link: bool) -> (r: ClipboardKind)
    requires
        text@.len() <= u64::MAX,
    ensures
        text_kind_spec(text@, link, r),
{
    let characters = char_count(text);
    if link {
        ClipboardKind::Url { characters, url: text.to_string(), title: String::new() }
    } else {
        let words = split_whitespace(text);
        proof {
            assert(words@.map_values(|w: String| w@).len() == words@.len());
        }
        ClipboardKind::Text { characters, words: words.len() as u64, text: text.to_string() }
    }
}

/// What a new entry records of the application it was copied in: its name
/// and icon, or `Unknown` and no icon.
pub open spec fn application_of(app: Option<AppData>) -> (Seq<char>, Option<Seq<char>>) {
    match app {
        Some(a) => (a.name@, Some(a.icon_path@)),
        None => ("Unknown"@, None),
    }
}

/// The entry and its details as first recorded at time `now`.
pub open spec fn is_new_entry(
    id: u64,
    title: Seq<char>,
    app: Option<AppData>,
    now: i64,
    item: ClipboardListItem,
    detail: ClipboardDetail,
) -> bool {
    &&& item.id == id
    &&& item.title@ == title
    &&& item.copied_first == now
    &&& item.copied_last == now
    &&& item.copy_count == 1
    &&& list_kind_view(item.kind) == kind_list_view(detail.kind)
    &&& detail.id == id
    &&& detail.application@ == application_of(app).0
    &&& (match detail.application_icon {
        Some(p) => application_of(app).1 == Some(p@),
        None => application_of(app).1 is None,
    })
}

impl ClipboardListItem {
    /// A new entry `id` titled `title`, copied once at `now` in `app`,
    /// with its details.
    pub fn new(id: u64, title: &str, kind: ClipboardKind, app: &Option<AppData>, now: i64) -> (r: (
        ClipboardListItem,
        ClipboardDetail,
    ))
        ensures
            is_new_entry(id, title@, *app, now, r.0, r.1),
            r.1.kind == kind,
    {
        let (application, application_icon) = match app {
            Some(a) => (a.name.clone(), Some(a.icon_path.clone())),
            None => ("Unknown".to_string(), None),
        };
        let list_kind = ClipboardListItemKind::from_kind(&kind);
        let item = ClipboardListItem {
            id,
            title: title.to_string(),
            copied_first: now,
            copied_last: now,
            kind: list_kind,
            copy_count: 1,
        };
        let detail = ClipboardDetail { id, application, application_icon, kind };
        (item, detail)
    }

    /// The entry copied once more at `now`.
    pub fn copied_again(&mut self, now: i64)
        requires
            old(self).copy_count < u32::MAX,
        ensures
            final(self).copied_last == now,
            final(self).copy_count == old(self).copy_count + 1,
            final(self).id == old(self).id,
            final(self).title == old(self).title,
            final(self).copied_first == old(self).copied_first,
            final(self).kind == old(self).kind,
    {
        self.copied_last = now;
        self.copy_count = self.copy_count + 1;
    }

    /// Whether the entry was last copied more than `age` milliseconds
    /// before `now`, so that pruning removes it.
    pub fn is_expired(&self, now: i64, age: i64) -> (r: bool)
        requires
            i64::MIN <= now - age <= i64::MAX,
        ensures
            r == (self.copied_last < now - age),
    {
        self.copied_last < now - age
    }

    /// The list item of the entry: found by its title, with a preview, and
    /// the actions Paste, then Copy Text to Clipboard (images) or Open
    /// (links) on shift-enter, then Delete; it carries the time of the last
    /// copy.
    pub fn get_item(&self) -> (r: Item)
        ensures
            r.id == self.id,
            r.meta == Some(self.copied_last),
            r.keywords@.map_values(|k: String| k@) == seq![self.title@],
            r.preview,
            r.weight is None,
            is_entry_actions(self.kind, r.actions@),
    {
        let mut actions: Vec<Action> = Vec::new();
        actions.push(Action::new("Paste", None, false));
        match &self.kind {
            ClipboardListItemKind::Image { .. } => {
                actions.push(Action::new("Copy Text to Clipboard", Some(Shortcut::new("enter").shift()), false));
            },
            ClipboardListItemKind::Url { .. } => {
                actions.push(Action::new("Open", Some(Shortcut::new("enter").shift()), false));
            },
            ClipboardListItemKind::Text => {},
        }
        actions.push(Action::new("Delete", None, false));
        let mut keywords: Vec<String> = Vec::new();
        keywords.push(self.title.clone());
        proof {
            assert(keywords@.map_values(|k: String| k@) =~= seq![self.title@]);
        }
        ItemBuilder::new(self.id).keywords(keywords).actions(actions).preview().meta(self.copied_last).build()
    }
}

/// The actions of an entry of kind `kind`.
pub open spec fn is_entry_actions(kind: ClipboardListItemKind, a: Seq<Action>) -> bool {
    let shift = Modifiers { shift: true, ..Modifiers::none_spec() };
    match kind {
        ClipboardListItemKind::Text => a.len() == 2 && action_is(a[0], "Paste"@, None) && action_is(
            a[1],
            "Delete"@,
            None,
        ),
        ClipboardListItemKind::Url { .. } => a.len() == 3 && action_is(a[0], "Paste"@, None) && action_is(
            a[1],
            "Open"@,
            Some(("enter"@, shift)),
        ) && action_is(a[2], "Delete"@, None),
        ClipboardListItemKind::Image { .. } => a.len() == 3 && action_is(a[0], "Paste"@, None) && action_is(
            a[1],
            "Copy Text to Clipboard"@,
            Some(("enter"@, shift)),
        ) && action_is(a[2], "Delete"@, None),
    }
}

/// The entry recorded for copied `text` with hash `hash`: titled by
/// `clip_title`, a link where the text parses as a web link, else text.
pub fn text_entry(hash: u64, text: &str, app: &Option<AppData>, now: i64) -> (r: (
    ClipboardListItem,
    ClipboardDetail,
))
    requires
        title_cuttable(text@),
        text@.len() <= u64::MAX,
    ensures
        is_new_entry(hash, r.0.title@, *app, now, r.0, r.1),
        is_clip_title(title_text(text@), r.0.title@),
        text_kind_spec(text@, is_web_link_spec(url_parse(text@)), r.1.kind),
{
    let title = clip_title(text);
    let link = text_is_web_link(text);
    let kind = text_kind(text, link);
    ClipboardListItem::new(hash, title.as_str(), kind, app, now)
}

/// `Image (WxH)`.
pub open spec fn image_title_spec(width: u32, height: u32) -> Seq<char> {
    "Image ("@ + decimal_spec(width as nat) + "x"@ + decimal_spec(height as nat) + ")"@
}

/// The entry recorded for a copied image of `width` by `height` with hash
/// `hash`: titled `Image (WxH)`, stored as `<hash>.png` with a thumbnail
/// `<hash>.thumb.png` in `cache`.
pub fn image_entry(hash: u64, width: u32, height: u32, cache: &str, app: &Option<AppData>, now: i64) -> (r: (
    ClipboardListItem,
    ClipboardDetail,
))
    ensures
        is_new_entry(hash, image_title_spec(width, height), *app, now, r.0, r.1),
        r.1.kind matches ClipboardKind::Image { width: w, height: h, thumbnail, path } && w == width && h
            == height && path@ == join_spec(cache@, decimal_spec(hash as nat) + ".png"@) && thumbnail@
            == join_spec(cache@, decimal_spec(hash as nat) + ".thumb.png"@),
{
    let ws = decimal(width as u64);
    let hs = decimal(height as u64);
    let a = str_concat("Image (", ws.as_str());
    let b = str_concat(a.as_str(), "x");
    let c = str_concat(b.as_str(), hs.as_str());
    let title = str_concat(c.as_str(), ")");
    assert(title@ =~= image_title_spec(width, height));
    let name = decimal(hash);
    let png = str_concat(name.as_str(), ".png");
    let thumb = str_concat(name.as_str(), ".thumb.png");
    let path = path_join(cache, png.as_str());
    let thumbnail = path_join(cache, thumb.as_str());
    let kind = ClipboardKind::Image { width, height, thumbnail, path };
    ClipboardListItem::new(hash, title.as_str(), kind, app, now)
}

/// The values of a table's rows.
pub open spec fn rows_view(rows: Seq<(String, String)>) -> Seq<(Seq<char>, Seq<char>)> {
    rows.map_values(|r: (String, String)| (r.0@, r.1@))
}

/// The rows of an entry's preview table: the application and content type;
/// when it was copied (first, last and how often, where more than once);
/// then the character and word counts of text, the character count and any
/// title of a link, or an image's dimensions.
pub open spec fn preview_rows_spec(
    item: ClipboardListItem,
    detail: ClipboardDetail,
    last_copied: Seq<char>,
    first_copied: Seq<char>,
) -> Seq<(Seq<char>, Seq<char>)> {
    let head = seq![("Application"@, detail.application@), ("Content Type"@, kind_label_spec(item.kind))];
    let times = if item.copy_count > 1 {
        seq![
            ("Last Copied"@, last_copied),
            ("First Copied"@, first_copied),
            ("Times Copied"@, decimal_spec(item.copy_count as nat)),
        ]
    } else {
        seq![("Copied"@, last_copied)]
    };
    let tail = match detail.kind {
        ClipboardKind::Text { characters, words, .. } => seq![
            ("Characters"@, decimal_spec(characters as nat)),
            ("Words"@, decimal_spec(words as nat)),
        ],
        ClipboardKind::Url { characters, title, .. } => if title@.len() == 0 {
            seq![("Characters"@, decimal_spec(characters as nat))]
        } else {
            seq![("Characters"@, decimal_spec(characters as nat)), ("Title"@, title@)]
        },
        ClipboardKind::Image { width, height, .. } => seq![
            ("Dimensions"@, decimal_spec(width as nat) + "x"@ + decimal_spec(height as nat)),
        ],
    };
    head + times + tail
}

fn push_row(rows: &mut Vec<(String, String)>, key: &str, value: String)
    ensures
        rows_view(final(rows)@) == rows_view(old(rows)@).push((key@, value@)),
{
    rows.push((key.to_string(), value));
    proof {
        assert(rows_view(rows@) =~= rows_view(old(rows)@).push((key@, value@)));
    }
}

/// The preview table of an entry, given how its copy times read.
pub fn preview_rows(item: &ClipboardListItem, detail: &ClipboardDetail, last_copied: &str, first_copied: &str) -> (r: Vec<
    (String, String),
>)
    ensures
        rows_view(r@) == preview_rows_spec(*item, *detail, last_copied@, first_copied@),
{
    let mut rows: Vec<(String, String)> = Vec::new();
    push_row(&mut rows, "Application", detail.application.clone());
    push_row(&mut rows, "Content Type", item.kind.label());
    if item.copy_count > 1 {
        push_row(&mut rows, "Last Copied", last_copied.to_string());
        push_row(&mut rows, "First Copied", first_copied.to_string());
        push_row(&mut rows, "Times Copied", decimal(item.copy_count as u64));
    } else {
        push_row(&mut rows, "Copied", last_copied.to_string());
    }
    match &detail.kind {
        ClipboardKind::Text { characters, words, .. } => {
            push_row(&mut rows, "Characters", decimal(*characters));
            push_row(&mut rows, "Words", decimal(*words));
        },
        ClipboardKind::Url { characters, title, .. } => {
            push_row(&mut rows, "Characters", decimal(*characters));
            if title.as_str().unicode_len() > 0 {
                push_row(&mut rows, "Title", title.clone());
            }
        },
        ClipboardKind::Image { width, height, .. } => {
            let w = decimal(*width as u64);
            let h = decimal(*height as u64);
            let wx = str_concat(w.as_str(), "x");
            let d = str_concat(wx.as_str(), h.as_str());
            push_row(&mut rows, "Dimensions", d);
        },
    }
    proof {
        assert(rows_view(rows@) =~= preview_rows_spec(*item, *detail, last_copied@, first_copied@));
    }
    rows
}

/// The filter of the history list: every type, or one of them, as
/// `(value, label)` pairs.
pub fn history_filter_options() -> (r: Vec<(String, String)>)
    ensures
        rows_view(r@) == seq![
            (""@, "All Types"@),
            ("Text"@, "Text Only"@),
            ("Link"@, "Links Only"@),
            ("Image"@, "Images Only"@),
        ],
{
    let mut r: Vec<(String, String)> = Vec::new();
    push_row(&mut r, "", "All Types".to_string());
    push_row(&mut r, "Text", "Text Only".to_string());
    push_row(&mut r, "Link", "Links Only".to_string());
    push_row(&mut r, "Image", "Images Only".to_string());
    r
}

/// The sort key of a time: `t` shifted to start at zero, in the same order.
pub open spec fn time_key(t: i64) -> u128 {
    (t - i64::MIN) as u128
}

/// A later time has a larger sort key, and equal keys are equal times.
pub proof fn law_time_key_monotone(t1: i64, t2: i64)
    ensures
        t1 < t2 ==> time_key(t1) < time_key(t2),
        time_key(t1) == time_key(t2) ==> t1 == t2,
{
}

/// The history list puts later copies first: `r` is the entries `items`
/// (copied last at `times`) in an order `p` that lists each entry once,
/// where an entry copied later never follows one copied earlier, and
/// entries copied at the same time keep their order.
pub proof fn law_newest_first(items: Seq<Item>, times: Seq<i64>, r: Seq<Item>)
    requires
        items.len() == times.len(),
        sorted_desc_from(r, items, times.map_values(|t: i64| time_key(t))),
    ensures
        exists|p: Seq<int>|
            {
                &&& p.len() == items.len()
                &&& r == p.map_values(|i: int| items[i])
                &&& forall|k: int| 0 <= k < p.len() ==> 0 <= #[trigger] p[k] < items.len()
                &&& forall|i: int| 0 <= i < items.len() ==> #[trigger] covers(p, i)
                &&& forall|k: int, l: int|
                    0 <= k < l < p.len() ==> times[#[trigger] p[k]] > times[#[trigger] p[l]] || (times[p[k]]
                        == times[p[l]] && p[k] < p[l])
            },
{
    let keys = times.map_values(|t: i64| time_key(t));
    let p = choose|p: Seq<int>| is_desc_order(p, keys) && r == p.map_values(|i: int| items[i]);
    assert forall|k: int, l: int| 0 <= k < l < p.len() implies times[#[trigger] p[k]] > times[#[trigger] p[l]] || (
    times[p[k]] == times[p[l]] && p[k] < p[l]) by {
        assert(before_desc(keys, p[k], p[l]));
        law_time_key_monotone(times[p[k]], times[p[l]]);
        law_time_key_monotone(times[p[l]], times[p[k]]);
    }
}

/// The history list's entries, newest copy first; entries copied at the
/// same time keep their order.
pub fn newest_first(items: Vec<Item>, copied_last: Vec<i64>) -> (r: Vec<Item>)
    requires
        items.len() == copied_last.len(),
    ensures
        sorted_desc_from(r@, items@, copied_last@.map_values(|t: i64| time_key(t))),
{
    let mut keys: Vec<u128> = Vec::new();
    let mut i: usize = 0;
    while i < copied_last.len()
        invariant
            i <= copied_last@.len(),
            keys@ == copied_last@.take(i as int).map_values(|t: i64| time_key(t)),
        decreases copied_last.len() - i,
    {
        let t = copied_last[i];
        let k: u128 = ((t as i128) - (i64::MIN as i128)) as u128;
        keys.push(k);
        i = i + 1;
        proof {
            assert(keys@ =~= copied_last@.take(i as int).map_values(|t: i64| time_key(t)));
        }
    }
    proof {
        assert(copied_last@.take(i as int) =~= copied_last@);
    }
    sort_desc(items, keys)
}

} // verus!

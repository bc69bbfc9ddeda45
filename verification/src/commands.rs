//! The launcher's commands and its root search: how each command is listed,
//! how installed applications are collected, and what a search shows.

use vstd::prelude::*;

use crate::chars::{str_concat, same_str};
use crate::fuzzy::{Score, fuzzy_match, item_score, ranked_from};
use crate::list::{Accessory, Item, ItemBuilder, item_views};
use crate::paths::{join_spec, path_join};
use crate::platform::path_extension_spec;
use crate::sort::{sort_by_text, sorted_text_from};
use crate::state::{Action, Shortcut, action_is};

verus! {

/// A command of the launcher, as the root search lists it.
#[derive(Debug)]
pub struct RootCommand {
    pub id: String,
    pub title: String,
    pub subtitle: String,
    /// The name of the command's icon.
    pub icon: String,
    pub keywords: Vec<String>,
    pub shortcut: Option<Shortcut>,
}

/// What is shown at the end of a command's row: its shortcut, or the word
/// `Command`.
#[derive(Debug)]
pub enum CommandAccessory {
    Shortcut(Shortcut),
    Label(String),
}

/// The values of some strings.
pub open spec fn texts(v: Seq<String>) -> Seq<Seq<char>> {
    v.map_values(|s: String| s@)
}

fn copy_strings(v: &Vec<String>) -> (r: Vec<String>)
    ensures
        texts(r@) == texts(v@),
{
    let mut r: Vec<String> = Vec::new();
    let mut i: usize = 0;
    while i < v.len()
        invariant
            i <= v@.len(),
            texts(r@) == texts(v@.take(i as int)),
        decreases v.len() - i,
    {
        let ghost before = texts(r@);
        r.push(v[i].clone());
        proof {
            assert(texts(r@) =~= before.push(v@[i as int]@));
            assert(v@.take(i + 1) =~= v@.take(i as int).push(v@[i as int]));
            assert(texts(v@.take(i + 1)) =~= texts(v@.take(i as int)).push(v@[i as int]@));
        }
        i = i + 1;
    }
    proof {
        assert(v@.take(i as int) =~= v@);
    }
    r
}

/// The keywords a command is found by: its title and subtitle, then its
/// own keywords.
pub open spec fn command_keywords(c: RootCommand) -> Seq<Seq<char>> {
    seq![c.title@, c.subtitle@] + texts(c.keywords@)
}

impl RootCommand {
    /// A command.
    pub fn new(
        id: &str,
        title: &str,
        subtitle: &str,
        icon: &str,
        keywords: Vec<String>,
        shortcut: Option<Shortcut>,
    ) -> (r: RootCommand)
        ensures
            r.id@ == id@,
            r.title@ == title@,
            r.subtitle@ == subtitle@,
            r.icon@ == icon@,
            r.keywords@ == keywords@,
            r.shortcut == shortcut,
    {
        RootCommand {
            id: id.to_string(),
            title: title.to_string(),
            subtitle: subtitle.to_string(),
            icon: icon.to_string(),
            keywords,
            shortcut,
        }
    }

    /// The command's entry in the root search (item id `item_id`): found by
    /// its keywords, weighted 3, with the actions that run it (labelled by
    /// its title) and Change Hotkey.
    pub fn entry(&self, item_id: u64) -> (r: Item)
        ensures
            r.id == item_id,
            r.keywords@.map_values(|k: String| k@) == command_keywords(*self),
            r.weight == Some(3u16),
            r.actions@.len() == 2,
            action_is(r.actions@[0], self.title@, None),
            action_is(r.actions@[1], "Change Hotkey"@, None),
            !r.preview,
    {
        let mut keywords: Vec<String> = Vec::new();
        keywords.push(self.title.clone());
        keywords.push(self.subtitle.clone());
        let mut own = copy_strings(&self.keywords);
        let ghost head = texts(keywords@);
        keywords.append(&mut own);
        proof {
            assert(head =~= seq![self.title@, self.subtitle@]);
            assert(texts(keywords@) =~= command_keywords(*self));
        }
        let mut actions: Vec<Action> = Vec::new();
        actions.push(Action::new(self.title.as_str(), None, false));
        actions.push(Action::new("Change Hotkey", None, false));
        ItemBuilder::new(item_id).keywords(keywords).actions(actions).weight(3).build()
    }

    /// What is shown at the end of the command's row.
    pub fn accessory(&self) -> (r: CommandAccessory)
        ensures
            match self.shortcut {
                Some(s) => r matches CommandAccessory::Shortcut(t) && t.inner.key == s.inner.key
                    && t.inner.modifiers == s.inner.modifiers,
                None => r matches CommandAccessory::Label(l) && l@ == "Command"@,
            },
    {
        match &self.shortcut {
            Some(s) => CommandAccessory::Shortcut(s.clone_shortcut()),
            None => CommandAccessory::Label("Command".to_string()),
        }
    }
}

/// The values of some strings, as a sequence of keywords.
fn keyword_list(words: Vec<&str>) -> (r: Vec<String>)
    ensures
        texts(r@) == words@.map_values(|w: &str| w@),
{
    let mut r: Vec<String> = Vec::new();
    let mut i: usize = 0;
    while i < words.len()
        invariant
            i <= words@.len(),
            texts(r@) == words@.take(i as int).map_values(|w: &str| w@),
        decreases words.len() - i,
    {
        let ghost before = texts(r@);
        r.push(words[i].to_string());
        proof {
            assert(texts(r@) =~= before.push(words@[i as int]@));
            assert(words@.take(i + 1) =~= words@.take(i as int).push(words@[i as int]));
            assert(words@.take(i + 1).map_values(|w: &str| w@) =~= words@.take(i as int).map_values(|w: &str| w@).push(
                words@[i as int]@,
            ));
        }
        i = i + 1;
    }
    proof {
        assert(words@.take(i as int) =~= words@);
    }
    r
}

/// `c` is the command `id` titled `title` under `subtitle`, drawn with
/// `icon`, found also by `keywords`, with no shortcut of its own.
pub open spec fn is_command(c: RootCommand, id: Seq<char>, title: Seq<char>, subtitle: Seq<char>, icon: Seq<char>, keywords: Seq<Seq<char>>) -> bool {
    &&& c.id@ == id
    &&& c.title@ == title
    &&& c.subtitle@ == subtitle
    &&& c.icon@ == icon
    &&& texts(c.keywords@) == keywords
    &&& c.shortcut is None
}

/// The task manager command.
pub fn process_command() -> (r: RootCommand)
    ensures
        is_command(r, "task_manager"@, "Search Processes"@, "Task Manager"@, "Cpu"@, seq!["Kill"@, "Memory"@, "CPU"@]),
{
    let k = keyword_list(vec!["Kill", "Memory", "CPU"]);
    assert(texts(k@) =~= seq!["Kill"@, "Memory"@, "CPU"@]);
    RootCommand::new("task_manager", "Search Processes", "Task Manager", "Cpu", k, None)
}

/// The themes command.
pub fn theme_command() -> (r: RootCommand)
    ensures
        is_command(r, "themes"@, "Search Themes"@, "Customization"@, "Palette"@, seq!["Appearance"@]),
{
    let k = keyword_list(vec!["Appearance"]);
    assert(texts(k@) =~= seq!["Appearance"@]);
    RootCommand::new("themes", "Search Themes", "Customization", "Palette", k, None)
}

/// The Tailscale command.
pub fn tailscale_command() -> (r: RootCommand)
    ensures
        is_command(r, "tailscale"@, "Search Peers"@, "Tailscale"@, "Waypoints"@, seq!["VPN"@]),
{
    let k = keyword_list(vec!["VPN"]);
    assert(texts(k@) =~= seq!["VPN"@]);
    RootCommand::new("tailscale", "Search Peers", "Tailscale", "Waypoints", k, None)
}

/// The Bitwarden vault command.
pub fn bitwarden_command() -> (r: RootCommand)
    ensures
        is_command(r, "bitwarden"@, "Search Vault"@, "Bitwarden"@, "Lock"@, seq!["Passwords"@]),
{
    let k = keyword_list(vec!["Passwords"]);
    assert(texts(k@) =~= seq!["Passwords"@]);
    RootCommand::new("bitwarden", "Search Vault", "Bitwarden", "Lock", k, None)
}

/// The Bitwarden accounts command.
pub fn bitwarden_accounts_command() -> (r: RootCommand)
    ensures
        is_command(r, "bitwarden_accounts"@, "Search Vault"@, "Bitwarden"@, "Vault"@, seq!["Passwords"@]),
{
    let k = keyword_list(vec!["Passwords"]);
    assert(texts(k@) =~= seq!["Passwords"@]);
    RootCommand::new("bitwarden_accounts", "Search Vault", "Bitwarden", "Vault", k, None)
}

/// The clipboard history command.
pub fn clipboard_command() -> (r: RootCommand)
    ensures
        is_command(r, "clipboard"@, "Clipboard History"@, "Clipboard"@, "Clipboard"@, Seq::empty()),
{
    let k = keyword_list(Vec::new());
    assert(texts(k@) =~= Seq::<Seq<char>>::empty());
    RootCommand::new("clipboard", "Clipboard History", "Clipboard", "Clipboard", k, None)
}

/// The Matrix command.
pub fn matrix_command() -> (r: RootCommand)
    ensures
        is_command(r, "matrix"@, "Search Rooms"@, "Matrix"@, "MessageCircle"@, seq!["Chat"@, "Messages"@]),
{
    let k = keyword_list(vec!["Chat", "Messages"]);
    assert(texts(k@) =~= seq!["Chat"@, "Messages"@]);
    RootCommand::new("matrix", "Search Rooms", "Matrix", "MessageCircle", k, None)
}

/// The macOS menu command.
pub fn menu_command() -> (r: RootCommand)
    ensures
        is_command(r, "macos_menu"@, "Search Menu Items"@, "Navigation"@, "Library"@, seq!["MacOS"@, "Apple"@]),
{
    let k = keyword_list(vec!["MacOS", "Apple"]);
    assert(texts(k@) =~= seq!["MacOS"@, "Apple"@]);
    RootCommand::new("macos_menu", "Search Menu Items", "Navigation", "Library", k, None)
}

/// The ids of some commands.
pub open spec fn command_ids(c: Seq<RootCommand>) -> Seq<Seq<char>> {
    c.map_values(|x: RootCommand| x.id@)
}

/// No later command has the id of command `i`.
pub open spec fn is_last_id(ids: Seq<Seq<char>>, i: int) -> bool {
    forall|j: int| i < j < ids.len() ==> ids[j] != ids[i]
}

/// The positions among the first `n` commands that no later command
/// repeats the id of, in order: the commands a map keyed by id keeps.
pub open spec fn last_id_positions(ids: Seq<Seq<char>>, n: int) -> Seq<int>
    decreases n,
{
    if n <= 0 {
        Seq::empty()
    } else if is_last_id(ids, n - 1) {
        last_id_positions(ids, n - 1).push(n - 1)
    } else {
        last_id_positions(ids, n - 1)
    }
}


/// What the first `n` kept positions are: increasing, below `n`, each the
/// last of its id, and every such position below `n` among them.
proof fn lemma_last_id_positions(ids: Seq<Seq<char>>, n: int)
    requires
        0 <= n <= ids.len(),
    ensures
        forall|k: int| 0 <= k < last_id_positions(ids, n).len() ==> 0 <= #[trigger] last_id_positions(ids, n)[k] < n
            && is_last_id(ids, last_id_positions(ids, n)[k]),
        forall|k: int, l: int|
            0 <= k < l < last_id_positions(ids, n).len() ==> #[trigger] last_id_positions(ids, n)[k]
                < #[trigger] last_id_positions(ids, n)[l],
        forall|j: int|
            0 <= j < n && is_last_id(ids, j) ==> exists|k: int|
                0 <= k < last_id_positions(ids, n).len() && #[trigger] last_id_positions(ids, n)[k] == j,
    decreases n,
{
    if n > 0 {
        lemma_last_id_positions(ids, n - 1);
        let prev = last_id_positions(ids, n - 1);
        if is_last_id(ids, n - 1) {
            let cur = last_id_positions(ids, n);
            assert(cur == prev.push(n - 1));
            assert forall|j: int| 0 <= j < n && is_last_id(ids, j) implies exists|k: int|
                0 <= k < cur.len() && #[trigger] cur[k] == j by {
                if j == n - 1 {
                    assert(cur[prev.len() as int] == j);
                } else {
                    let k = choose|k: int| 0 <= k < prev.len() && #[trigger] prev[k] == j;
                    assert(cur[k] == j);
                }
            }
        }
    }
}

/// Command `i` has a later or equal command with its id that no later
/// command repeats.
proof fn lemma_last_of_id(ids: Seq<Seq<char>>, i: int)
    requires
        0 <= i < ids.len(),
    ensures
        exists|j: int| i <= j < ids.len() && ids[j] == ids[i] && #[trigger] is_last_id(ids, j),
    decreases ids.len() - i,
{
    if !is_last_id(ids, i) {
        let j = choose|j: int| i < j < ids.len() && ids[j] == ids[i];
        lemma_last_of_id(ids, j);
    } else {
        assert(is_last_id(ids, i));
    }
}

/// No two of the commands kept from `built` share an id.
pub open spec fn kept_ids_distinct(built: Seq<RootCommand>) -> bool {
    let ids = command_ids(built);
    let kept = last_id_positions(ids, built.len() as int);
    forall|k: int, l: int| 0 <= k < l < kept.len() ==> ids[#[trigger] kept[k]] != ids[#[trigger] kept[l]]
}

/// The ids of the commands kept from `built`, in order.
pub open spec fn kept_ids(built: Seq<RootCommand>) -> Seq<Seq<char>> {
    let ids = command_ids(built);
    last_id_positions(ids, built.len() as int).map_values(|p: int| ids[p])
}

/// The id of every command of `built` is the id of a command kept.
pub open spec fn every_id_kept(built: Seq<RootCommand>) -> bool {
    forall|i: int| 0 <= i < built.len() ==> #[trigger] kept_ids(built).contains(built[i].id@)
}

/// Registering the commands `built` keeps one command per id: no two kept
/// commands share an id, and the id of every command built is kept.
pub proof fn law_one_command_per_id(built: Seq<RootCommand>)
    ensures
        kept_ids_distinct(built),
        every_id_kept(built),
{
    let ids = command_ids(built);
    let n = built.len() as int;
    lemma_last_id_positions(ids, n);
    let kept = last_id_positions(ids, n);
    assert forall|k: int, l: int| 0 <= k < l < kept.len() implies ids[#[trigger] kept[k]] != ids[#[trigger] kept[l]] by {
        assert(kept[k] < kept[l]);
        assert(is_last_id(ids, kept[k]));
        assert(kept[l] < ids.len());
    }
    assert forall|i: int| 0 <= i < built.len() implies #[trigger] kept_ids(built).contains(built[i].id@) by {
        lemma_last_of_id(ids, i);
        let j = choose|j: int| i <= j < ids.len() && ids[j] == ids[i] && #[trigger] is_last_id(ids, j);
        let k = choose|k: int| 0 <= k < kept.len() && #[trigger] kept[k] == j;
        assert(kept_ids(built)[k] == built[i].id@);
    }
}

/// The commands of the launcher, one for each id.
pub struct RootCommands {
    pub commands: Vec<RootCommand>,
}

/// `c` is the command at position `p` of `built`.
pub open spec fn built_at(built: Seq<RootCommand>, p: int, c: RootCommand) -> bool {
    0 <= p < built.len() && c == built[p]
}

impl RootCommands {
    /// The commands built, one for each id (the one built last).
    pub fn init(built: Vec<RootCommand>) -> (r: RootCommands)
        ensures
            r.commands@.len() == last_id_positions(command_ids(built@), built@.len() as int).len(),
            forall|k: int|
                0 <= k < r.commands@.len() ==> built_at(
                    built@,
                    last_id_positions(command_ids(built@), built@.len() as int)[k],
                    #[trigger] r.commands@[k],
                ),
    {
        let ghost orig = built@;
        let ghost ids = command_ids(orig);
        let n = built.len();
        let mut built = built;
        let mut rev: Vec<RootCommand> = Vec::new();
        while built.len() > 0
            invariant
                n == orig.len(),
                built@.len() + rev@.len() == n,
                built@ == orig.take(built@.len() as int),
                forall|k: int| 0 <= k < rev@.len() ==> #[trigger] rev@[k] == orig[n - 1 - k],
            decreases built.len(),
        {
            let c = built.pop().unwrap();
            rev.push(c);
            proof {
                assert(built@ =~= orig.take(built@.len() as int));
            }
        }
        let mut kept: Vec<RootCommand> = Vec::new();
        let mut i: usize = 0;
        while rev.len() > 0
            invariant
                n == orig.len(),
                ids == command_ids(orig),
                rev@.len() + i == n,
                forall|k: int| 0 <= k < rev@.len() ==> #[trigger] rev@[k] == orig[n - 1 - k],
                kept@.len() == last_id_positions(ids, i as int).len(),
                forall|k: int|
                    0 <= k < kept@.len() ==> built_at(orig, last_id_positions(ids, i as int)[k], #[trigger] kept@[k]),
            decreases rev.len(),
        {
            let c = rev.pop().unwrap();
            assert(c == orig[i as int]);
            let mut j: usize = 0;
            let mut later = false;
            while j < rev.len()
                invariant
                    j <= rev@.len(),
                    n == orig.len(),
                    rev@.len() + i + 1 == n,
                    ids == command_ids(orig),
                    forall|k: int| 0 <= k < rev@.len() ==> #[trigger] rev@[k] == orig[n - 1 - k],
                    c == orig[i as int],
                    !later ==> forall|k: int| 0 <= k < j ==> (#[trigger] rev@[k]).id@ != c.id@,
                    later ==> !is_last_id(ids, i as int),
                decreases rev.len() - j,
            {
                if same_str(rev[j].id.as_str(), c.id.as_str()) {
                    proof {
                        assert(ids[n - 1 - j] == rev@[j as int].id@);
                        assert(ids[i as int] == c.id@);
                    }
                    later = true;
                }
                j = j + 1;
            }
            let ghost old_kept = kept@;
            let ghost lp = last_id_positions(ids, i as int);
            if !later {
                proof {
                    assert forall|x: int| i < x < ids.len() implies ids[x] != ids[i as int] by {
                        let k = n - 1 - x;
                        assert(0 <= k < j);
                        assert(rev@[k] == orig[x]);
                    }
                    assert(last_id_positions(ids, i + 1) == lp.push(i as int));
                }
                kept.push(c);
                proof {
                    let np = last_id_positions(ids, i + 1);
                    assert forall|k: int| 0 <= k < kept@.len() implies built_at(orig, np[k], #[trigger] kept@[k]) by {
                        if k < old_kept.len() {
                            assert(kept@[k] == old_kept[k]);
                            assert(np[k] == lp[k]);
                        } else {
                            assert(np[k] == i as int);
                        }
                    }
                }
            } else {
                proof {
                    assert(last_id_positions(ids, i + 1) == lp);
                }
            }
            i = i + 1;
        }
        RootCommands { commands: kept }
    }

    /// Whether a command has id `id`.
    pub fn knows(&self, id: &str) -> (r: bool)
        ensures
            r == exists|k: int| 0 <= k < self.commands@.len() && (#[trigger] self.commands@[k]).id@ == id@,
    {
        let mut i: usize = 0;
        while i < self.commands.len()
            invariant
                i <= self.commands@.len(),
                forall|k: int| 0 <= k < i ==> (#[trigger] self.commands@[k]).id@ != id@,
            decreases self.commands.len() - i,
        {
            if same_str(self.commands[i].id.as_str(), id) {
                return true;
            }
            i = i + 1;
        }
        false
    }

    /// The stored hotkeys `(command id, hotkey)` of commands that exist, in
    /// order; the others are ignored.
    pub fn known_hotkeys(&self, stored: Vec<(String, String)>) -> (r: Vec<(String, String)>)
        ensures
            r@ == stored@.filter(
                |h: (String, String)|
                    exists|k: int| 0 <= k < self.commands@.len() && (#[trigger] self.commands@[k]).id@ == h.0@,
            ),
    {
        let ghost keep = |h: (String, String)|
            exists|k: int| 0 <= k < self.commands@.len() && (#[trigger] self.commands@[k]).id@ == h.0@;
        let ghost orig = stored@;
        let mut stored = stored;
        let mut rev: Vec<(String, String)> = Vec::new();
        let n = stored.len();
        while stored.len() > 0
            invariant
                n == orig.len(),
                stored@.len() + rev@.len() == n,
                stored@ == orig.take(stored@.len() as int),
                forall|k: int| 0 <= k < rev@.len() ==> #[trigger] rev@[k] == orig[n - 1 - k],
            decreases stored.len(),
        {
            let h = stored.pop().unwrap();
            rev.push(h);
            proof {
                assert(stored@ =~= orig.take(stored@.len() as int));
            }
        }
        let mut r: Vec<(String, String)> = Vec::new();
        let mut i: usize = 0;
        while rev.len() > 0
            invariant
                n == orig.len(),
                rev@.len() + i == n,
                forall|k: int| 0 <= k < rev@.len() ==> #[trigger] rev@[k] == orig[n - 1 - k],
                keep == (|h: (String, String)|
                    exists|k: int| 0 <= k < self.commands@.len() && (#[trigger] self.commands@[k]).id@ == h.0@),
                r@ == orig.take(i as int).filter(keep),
            decreases rev.len(),
        {
            let h = rev.pop().unwrap();
            assert(h == orig[i as int]);
            proof {
                assert(orig.take(i + 1) =~= orig.take(i as int).push(orig[i as int]));
                orig.take(i as int).lemma_filter_push(orig[i as int], keep);
            }
            if self.knows(h.0.as_str()) {
                r.push(h);
            }
            i = i + 1;
        }
        proof {
            assert(orig.take(i as int) =~= orig);
        }
        r
    }
}

/// A menu item of the frontmost application (macOS), shown by its last
/// path part under the rest of its path.
pub struct MenuEntry {
    pub item: Item,
    pub name: String,
    pub subtitle: String,
}

/// `e` is the entry of the menu item at `path` with item id `id`: named by
/// the last part of the path, under the rest joined with ` -> `, found by
/// both, with Select Menu Item where it can be selected, and its shortcut,
/// if any, at the end of its row.
pub open spec fn is_menu_entry(
    id: u64,
    path: Seq<Seq<char>>,
    selectable: bool,
    shortcut: Option<Shortcut>,
    e: MenuEntry,
) -> bool {
    &&& e.name@ == path.last()
    &&& e.subtitle@ == menu_path_spec(path.drop_last())
    &&& e.item.id == id
    &&& texts(e.item.keywords@) == seq![e.name@, e.subtitle@]
    &&& e.item.subtitle matches Some(t) && t@ == e.subtitle@
    &&& selectable ==> e.item.actions@.len() == 1 && action_is(e.item.actions@[0], "Select Menu Item"@, None)
    &&& !selectable ==> e.item.actions@.len() == 0
    &&& match shortcut {
        Some(s) => e.item.accessory == Some(Accessory::Shortcut(s)),
        None => e.item.accessory is None,
    }
}

/// A menu item as the menu bar reports it: its path of titles, whether it
/// can be selected (it has path indices), and its shortcut.
pub struct MenuItem {
    pub path: Vec<String>,
    pub selectable: bool,
    pub shortcut: Option<Shortcut>,
}

/// The menu list from the menu items read, `None` where the menu data did
/// not parse: one entry per item, in order, item `k` with id `ids[k]`; for
/// data that did not parse, the error `Failed to deserialize menu list`.
pub fn menu_list(items: Option<Vec<MenuItem>>, ids: &Vec<u64>) -> (r: Result<Vec<MenuEntry>, String>)
    requires
        items matches Some(v) ==> v@.len() == ids@.len() && forall|k: int|
            0 <= k < v@.len() ==> (#[trigger] v@[k]).path@.len() > 0,
    ensures
        match items {
            None => r matches Err(m) && m@ == "Failed to deserialize menu list"@,
            Some(v) => r matches Ok(es) && es@.len() == v@.len() && forall|k: int|
                0 <= k < v@.len() ==> is_menu_entry(
                    ids@[k],
                    texts(v@[k].path@),
                    v@[k].selectable,
                    v@[k].shortcut,
                    #[trigger] es@[k],
                ),
        },
{
    let v = match items {
        None => return Err("Failed to deserialize menu list".to_string()),
        Some(v) => v,
    };
    let ghost orig = v@;
    let n = v.len();
    let mut v = v;
    let mut rev: Vec<MenuItem> = Vec::new();
    while v.len() > 0
        invariant
            n == orig.len(),
            v@.len() + rev@.len() == n,
            v@ == orig.take(v@.len() as int),
            forall|k: int| 0 <= k < rev@.len() ==> #[trigger] rev@[k] == orig[n - 1 - k],
        decreases v.len(),
    {
        let m = v.pop().unwrap();
        rev.push(m);
        proof {
            assert(v@ =~= orig.take(v@.len() as int));
        }
    }
    let mut out: Vec<MenuEntry> = Vec::new();
    let mut i: usize = 0;
    while rev.len() > 0
        invariant
            n == orig.len(),
            n == ids@.len(),
            rev@.len() + i == n,
            forall|k: int| 0 <= k < rev@.len() ==> #[trigger] rev@[k] == orig[n - 1 - k],
            forall|k: int| 0 <= k < n ==> (#[trigger] orig[k]).path@.len() > 0,
            out@.len() == i,
            forall|k: int|
                0 <= k < i ==> is_menu_entry(
                    ids@[k],
                    texts(orig[k].path@),
                    orig[k].selectable,
                    orig[k].shortcut,
                    #[trigger] out@[k],
                ),
        decreases rev.len(),
    {
        let m = rev.pop().unwrap();
        assert(m == orig[i as int]);
        let e = menu_entry(ids[i], &m.path, m.selectable, m.shortcut);
        out.push(e);
        i = i + 1;
    }
    Ok(out)
}

/// `parts` joined with ` -> `.
pub open spec fn menu_path_spec(parts: Seq<Seq<char>>) -> Seq<char>
    decreases parts.len(),
{
    if parts.len() == 0 {
        Seq::empty()
    } else if parts.len() == 1 {
        parts[0]
    } else {
        menu_path_spec(parts.drop_last()) + " -> "@ + parts.last()
    }
}

/// The entry of the menu item at `path` (item id `id`): named by its last
/// part, found by that and the rest of the path, with Select Menu Item
/// where it can be selected, and its keyboard shortcut, if it has one, at
/// the end of its row.
pub fn menu_entry(id: u64, path: &Vec<String>, selectable: bool, shortcut: Option<Shortcut>) -> (r: MenuEntry)
    requires
        path@.len() > 0,
    ensures
        is_menu_entry(id, texts(path@), selectable, shortcut, r),
        r.name@ == path@.last()@,
        r.subtitle@ == menu_path_spec(texts(path@.drop_last())),
        r.item.id == id,
        texts(r.item.keywords@) == seq![r.name@, r.subtitle@],
        selectable ==> r.item.actions@.len() == 1 && action_is(r.item.actions@[0], "Select Menu Item"@, None),
        !selectable ==> r.item.actions@.len() == 0,
        match shortcut {
            Some(s) => r.item.accessory == Some(Accessory::Shortcut(s)),
            None => r.item.accessory is None,
        },
{
    let n = path.len();
    let name = path[n - 1].clone();
    let ghost pv = texts(path@.drop_last());
    let mut subtitle = String::new();
    let mut i: usize = 0;
    proof {
        assert(pv.take(0) =~= Seq::<Seq<char>>::empty());
    }
    while i < n - 1
        invariant
            n == path@.len(),
            i <= n - 1,
            pv == texts(path@.drop_last()),
            subtitle@ == menu_path_spec(pv.take(i as int)),
        decreases n - 1 - i,
    {
        proof {
            assert(pv.take(i + 1).drop_last() =~= pv.take(i as int));
            assert(pv.take(i + 1).last() == path@[i as int]@);
        }
        if i == 0 {
            subtitle = path[0].clone();
            proof {
                assert(pv.take(1) =~= seq![pv[0]]);
            }
        } else {
            let a = str_concat(subtitle.as_str(), " -> ");
            subtitle = str_concat(a.as_str(), path[i].as_str());
        }
        i = i + 1;
    }
    proof {
        assert(pv.take((n - 1) as int) =~= pv);
    }
    let mut keywords: Vec<String> = Vec::new();
    keywords.push(name.clone());
    keywords.push(subtitle.clone());
    let mut actions: Vec<Action> = Vec::new();
    if selectable {
        actions.push(Action::new("Select Menu Item", None, false));
    }
    proof {
        assert(texts(keywords@) =~= seq![name@, subtitle@]);
    }
    let builder = ItemBuilder::new(id).keywords(keywords).actions(actions).subtitle(subtitle.clone());
    let builder = match shortcut {
        Some(s) => builder.accessory(Accessory::Shortcut(s)),
        None => builder,
    };
    let item = builder.build();
    proof {
        assert(texts(path@).drop_last() =~= texts(path@.drop_last()));
        assert(texts(path@).last() == path@.last()@);
    }
    MenuEntry { item, name, subtitle }
}

// ------------------------------------------------------------ applications

/// An installed application as the root search lists it.
pub struct AppEntry {
    pub item: Item,
    pub bundle_id: String,
    pub name: String,
    pub icon_path: String,
    /// An extension of System Settings, opened through its URL scheme.
    pub system_setting: bool,
}

/// How an application is tagged: `System Setting` for an extension
/// (`.appex`), `Application` otherwise.
pub open spec fn app_tag_spec(system_setting: bool) -> Seq<char> {
    if system_setting {
        "System Setting"@
    } else {
        "Application"@
    }
}

/// `e` lists the application `name` with bundle id `bundle_id` found at
/// `path`: found by its name, its icon in `cache` under its bundle id, and
/// an action that opens it.
pub open spec fn is_app_entry(
    id: u64,
    bundle_id: Seq<char>,
    name: Seq<char>,
    path: Seq<char>,
    cache: Seq<char>,
    e: AppEntry,
) -> bool {
    let ex = path_extension_spec(path) == Some("appex"@);
    &&& e.item.id == id
    &&& e.bundle_id@ == bundle_id
    &&& e.name@ == name
    &&& e.system_setting == ex
    &&& e.icon_path@ == join_spec(cache, bundle_id + ".png"@)
    &&& e.item.keywords@.map_values(|k: String| k@) == seq![name]
    &&& e.item.actions@.len() == 1
    &&& action_is(e.item.actions@[0], "Open "@ + app_tag_spec(ex), None)
}

/// Whether `path` names an extension of System Settings.
fn is_appex(path: &str) -> (r: bool)
    ensures
        r == (path_extension_spec(path@) == Some("appex"@)),
{
    crate::platform::has_extension(path, "appex")
}

/// The root search's entry of the application `name` with bundle id
/// `bundle_id` found at `path` (item id `id`), its icon kept in `cache`.
pub fn app_entry(id: u64, bundle_id: &str, name: &str, path: &str, cache: &str) -> (r: AppEntry)
    ensures
        is_app_entry(id, bundle_id@, name@, path@, cache@, r),
{
    let ex = is_appex(path);
    let tag = if ex {
        "System Setting"
    } else {
        "Application"
    };
    let label = str_concat("Open ", tag);
    let mut actions: Vec<Action> = Vec::new();
    actions.push(Action::new(label.as_str(), None, false));
    let mut keywords: Vec<String> = Vec::new();
    keywords.push(name.to_string());
    proof {
        assert(keywords@.map_values(|k: String| k@) =~= seq![name@]);
    }
    let item = ItemBuilder::new(id).keywords(keywords).actions(actions).build();
    let png = str_concat(bundle_id, ".png");
    let icon_path = path_join(cache, png.as_str());
    AppEntry { item, bundle_id: bundle_id.to_string(), name: name.to_string(), icon_path, system_setting: ex }
}

/// What `open` is run with to open an application: the System Settings URL
/// of an extension, else `-b` and the bundle id.
pub fn open_args(bundle_id: &str, system_setting: bool) -> (r: Vec<String>)
    ensures
        system_setting ==> texts(r@) == seq!["x-apple.systempreferences:"@ + bundle_id@],
        !system_setting ==> texts(r@) == seq!["-b"@, bundle_id@],
{
    let mut r: Vec<String> = Vec::new();
    if system_setting {
        r.push(str_concat("x-apple.systempreferences:", bundle_id));
    } else {
        r.push("-b".to_string());
        r.push(bundle_id.to_string());
    }
    proof {
        if system_setting {
            assert(texts(r@) =~= seq!["x-apple.systempreferences:"@ + bundle_id@]);
        } else {
            assert(texts(r@) =~= seq!["-b"@, bundle_id@]);
        }
    }
    r
}

/// The bundle ids of some entries.
pub open spec fn bundle_ids(e: Seq<AppEntry>) -> Seq<Seq<char>> {
    e.map_values(|a: AppEntry| a.bundle_id@)
}

/// No later entry has the bundle id of entry `i`.
pub open spec fn is_last_of_id(ids: Seq<Seq<char>>, i: int) -> bool {
    forall|j: int| i < j < ids.len() ==> ids[j] != ids[i]
}

/// The positions among the first `n` entries that no later entry repeats
/// the bundle id of, in order: the entries a map keyed by bundle id keeps.
pub open spec fn last_positions(ids: Seq<Seq<char>>, n: int) -> Seq<int>
    decreases n,
{
    if n <= 0 {
        Seq::empty()
    } else if is_last_of_id(ids, n - 1) {
        last_positions(ids, n - 1).push(n - 1)
    } else {
        last_positions(ids, n - 1)
    }
}

/// `e` is the entry at position `p` of `found`.
pub open spec fn found_at(found: Seq<AppEntry>, p: int, e: AppEntry) -> bool {
    0 <= p < found.len() && e == found[p]
}

/// `kept` holds the entries at `positions` of `found`.
pub open spec fn entries_at_positions(kept: Seq<AppEntry>, found: Seq<AppEntry>, positions: Seq<int>) -> bool {
    &&& kept.len() == positions.len()
    &&& forall|k: int| 0 <= k < kept.len() ==> found_at(found, positions[k], #[trigger] kept[k])
}

/// The applications found, one for each bundle id (the one found last),
/// ordered by name.
pub fn collect_apps(found: Vec<AppEntry>) -> (r: Vec<AppEntry>)
    ensures
        exists|kept: Seq<AppEntry>|
            entries_at_positions(kept, found@, last_positions(bundle_ids(found@), found@.len() as int))
                && sorted_text_from(r@, kept, kept.map_values(|a: AppEntry| a.name@)),
{
    let ghost orig = found@;
    let ghost ids = bundle_ids(orig);
    let n = found.len();
    let mut found = found;
    let mut rev: Vec<AppEntry> = Vec::new();
    while found.len() > 0
        invariant
            n == orig.len(),
            found@.len() + rev@.len() == n,
            found@ == orig.take(found@.len() as int),
            forall|k: int| 0 <= k < rev@.len() ==> #[trigger] rev@[k] == orig[n - 1 - k],
        decreases found.len(),
    {
        let e = found.pop().unwrap();
        rev.push(e);
        proof {
            assert(found@ =~= orig.take(found@.len() as int));
        }
    }
    let mut kept: Vec<AppEntry> = Vec::new();
    let mut i: usize = 0;
    while rev.len() > 0
        invariant
            n == orig.len(),
            ids == bundle_ids(orig),
            rev@.len() + i == n,
            forall|k: int| 0 <= k < rev@.len() ==> #[trigger] rev@[k] == orig[n - 1 - k],
            entries_at_positions(kept@, orig, last_positions(ids, i as int)),
        decreases rev.len(),
    {
        let e = rev.pop().unwrap();
        assert(e == orig[i as int]);
        let mut j: usize = 0;
        let mut later = false;
        while j < rev.len()
            invariant
                j <= rev@.len(),
                n == orig.len(),
                rev@.len() + i + 1 == n,
                ids == bundle_ids(orig),
                forall|k: int| 0 <= k < rev@.len() ==> #[trigger] rev@[k] == orig[n - 1 - k],
                e == orig[i as int],
                !later ==> forall|k: int| 0 <= k < j ==> (#[trigger] rev@[k]).bundle_id@ != e.bundle_id@,
                later ==> !is_last_of_id(ids, i as int),
            decreases rev.len() - j,
        {
            if same_str(rev[j].bundle_id.as_str(), e.bundle_id.as_str()) {
                proof {
                    assert(ids[n - 1 - j] == rev@[j as int].bundle_id@);
                    assert(ids[i as int] == e.bundle_id@);
                }
                later = true;
            }
            proof {
                assert(ids[n - 1 - j] == rev@[j as int].bundle_id@);
                assert(ids[i as int] == e.bundle_id@);
            }
            j = j + 1;
        }
        let ghost old_kept = kept@;
        let ghost lp = last_positions(ids, i as int);
        if !later {
            proof {
                assert forall|x: int| i < x < ids.len() implies ids[x] != ids[i as int] by {
                    let k = n - 1 - x;
                    assert(0 <= k < j);
                    assert(rev@[k] == orig[x]);
                }
                assert(is_last_of_id(ids, i as int));
                assert(last_positions(ids, i + 1) == lp.push(i as int));
            }
            kept.push(e);
            proof {
                let np = last_positions(ids, i + 1);
                assert forall|k: int| 0 <= k < kept@.len() implies found_at(orig, np[k], #[trigger] kept@[k]) by {
                    if k < old_kept.len() {
                        assert(kept@[k] == old_kept[k]);
                        assert(np[k] == lp[k]);
                    } else {
                        assert(np[k] == i as int);
                        assert(kept@[k] == e);
                    }
                }
                assert(entries_at_positions(kept@, orig, np));
            }
        } else {
            proof {
                assert(last_positions(ids, i + 1) == lp);
                assert(entries_at_positions(kept@, orig, lp));
            }
        }
        i = i + 1;
    }
    let mut names: Vec<String> = Vec::new();
    let mut k: usize = 0;
    while k < kept.len()
        invariant
            k <= kept@.len(),
            names@.map_values(|s: String| s@) == kept@.take(k as int).map_values(|a: AppEntry| a.name@),
        decreases kept.len() - k,
    {
        let ghost before = names@.map_values(|s: String| s@);
        names.push(kept[k].name.clone());
        proof {
            assert(names@.map_values(|s: String| s@) =~= before.push(kept@[k as int].name@));
            assert(kept@.take(k + 1) =~= kept@.take(k as int).push(kept@[k as int]));
            assert(kept@.take(k + 1).map_values(|a: AppEntry| a.name@) =~= kept@.take(k as int).map_values(
                |a: AppEntry| a.name@,
            ).push(kept@[k as int].name@));
        }
        k = k + 1;
    }
    proof {
        assert(kept@.take(k as int) =~= kept@);
    }
    let ghost kv = kept@;
    let r = sort_by_text(kept, names);
    proof {
        assert(entries_at_positions(kv, orig, last_positions(ids, n as int)));
    }
    r
}

// ------------------------------------------------------------------ search

/// `scores` are the weighted scores of `items` for `query`.
pub open spec fn item_scores(query: Seq<char>, items: Seq<Item>, scores: Seq<Option<u16>>) -> bool {
    &&& scores.len() == items.len()
    &&& forall|i: int|
        0 <= i < items.len() ==> #[trigger] scores[i] == item_score(
            query,
            items[i].keywords@.map_values(|k: String| k@),
            items[i].weight,
        )
}

/// What the root search shows for `query`: the applications and commands
/// ranked by the fuzzy filter; where none matches, the calculator's answer
/// if it has one.
pub open spec fn search_result(
    query: Seq<char>,
    apps: Seq<Item>,
    commands: Seq<Item>,
    calculator: Option<Item>,
    r: Seq<Item>,
) -> bool {
    exists|scores: Seq<Option<u16>>, ranked: Seq<Item>|
        #![trigger ranked_from(ranked, apps + commands, scores)]
        {
            &&& item_scores(query, apps + commands, scores)
            &&& ranked_from(ranked, apps + commands, scores)
            &&& if ranked.len() == 0 && calculator is Some {
                r == seq![calculator->0]
            } else {
                r == ranked
            }
        }
}

/// What the root search shows for `query` (see `search_result`).
pub fn root_search(query: &str, apps: Vec<Item>, commands: Vec<Item>, calculator: Option<Item>) -> (r: Vec<Item>)
    ensures
        search_result(query@, apps@, commands@, calculator, r@),
{
    let ghost a = apps@;
    let ghost c = commands@;
    let mut all = apps;
    let mut more = commands;
    all.append(&mut more);
    let ghost all_v = all@;
    assert(all_v == a + c);
    let ranked = fuzzy_match(query, all, false);
    let ghost rv = ranked@;
    let ghost scores = choose|scores: Seq<Option<u16>>|
        {
            &&& scores.len() == all_v.len()
            &&& forall|i: int|
                0 <= i < all_v.len() ==> #[trigger] scores[i] == item_score(
                    query@,
                    all_v[i].keyword_view(),
                    all_v[i].weight_view(),
                )
            &&& ranked_from(rv, all_v, scores)
        };
    proof {
        assert(item_scores(query@, a + c, scores));
    }
    if ranked.len() == 0 {
        match calculator {
            Some(calc) => {
                let mut r: Vec<Item> = Vec::new();
                r.push(calc);
                proof {
                    assert(r@ =~= seq![calc]);
                }
                r
            },
            None => ranked,
        }
    } else {
        ranked
    }
}

} // verus!

//! Themes: the names of the built-in Catppuccin themes, which theme the
//! light and dark appearance use, and the themes list.

use vstd::prelude::*;

use crate::bitwarden::cmd_modifiers;
use crate::chars::{ascii_upper, chars_of, str_concat, same_str, string_of, to_uppercase};
use crate::list::{Item, ItemBuilder};
use crate::state::{Action, Shortcut, action_is};

verus! {

/// The names of the four Catppuccin flavours, in the crate's order.
pub open spec fn flavour_names_spec() -> Seq<Seq<char>> {
    seq!["latte"@, "frappe"@, "macchiato"@, "mocha"@]
}

/// `catppuccin::Flavour::all()[index].name()`; claimed, as the crate's
/// source shows: the flavours are Latte, Frappé, Macchiato and Mocha, in
/// that order, named in lower case.
#[verifier::external_body]
fn flavour_name(index: usize) -> (r: String)
    requires
        index < 4,
    ensures
        r@ == flavour_names_spec()[index as int],
{
    catppuccin::Flavour::all()[index].name().to_string()
}

/// `name` with its first character upper-cased.
pub open spec fn capitalized(name: Seq<char>) -> Seq<char> {
    ascii_upper(seq![name[0]]) + name.drop_first()
}

/// The theme name of a flavour: `Catppuccin` and the flavour's name with
/// its first letter upper-cased. The rest of the name is taken from its
/// second byte on, so the first character must be a single byte (ASCII);
/// the flavour names are.
pub fn theme_name(flavour: &str) -> (r: String)
    requires
        flavour@.len() > 0,
        (flavour@[0] as u32) < 128,
    ensures
        r@ == "Catppuccin "@ + capitalized(flavour@),
{
    let v = chars_of(flavour);
    let mut first: Vec<char> = Vec::new();
    first.push(v[0]);
    let head = string_of(first.as_slice());
    proof {
        assert(crate::chars::all_ascii(head@));
    }
    let upper = to_uppercase(head.as_str());
    let rest = crate::chars::substring(v.as_slice(), 1, v.len());
    let a = str_concat("Catppuccin ", upper.as_str());
    proof {
        assert(rest@ =~= flavour@.drop_first());
    }
    str_concat(a.as_str(), rest.as_str())
}

/// The names of the built-in themes.
pub open spec fn builtin_names_spec() -> Seq<Seq<char>> {
    seq!["Catppuccin Latte"@, "Catppuccin Frappe"@, "Catppuccin Macchiato"@, "Catppuccin Mocha"@]
}

/// The names of the built-in themes, one for each Catppuccin flavour.
pub fn builtin_theme_names() -> (r: Vec<String>)
    ensures
        r@.map_values(|n: String| n@) == builtin_names_spec(),
{
    let mut r: Vec<String> = Vec::new();
    let mut i: usize = 0;
    while i < 4
        invariant
            i <= 4,
            r@.map_values(|n: String| n@) == builtin_names_spec().take(i as int),
        decreases 4 - i,
    {
        let f = flavour_name(i);
        let ghost fs = flavour_names_spec()[i as int];
        proof {
            reveal_strlit("latte");
            reveal_strlit("frappe");
            reveal_strlit("macchiato");
            reveal_strlit("mocha");
            reveal_strlit("Catppuccin ");
            reveal_strlit("Catppuccin Latte");
            reveal_strlit("Catppuccin Frappe");
            reveal_strlit("Catppuccin Macchiato");
            reveal_strlit("Catppuccin Mocha");
            if i == 0 {
                assert(fs == "latte"@);
            } else if i == 1 {
                assert(fs == "frappe"@);
            } else if i == 2 {
                assert(fs == "macchiato"@);
            } else {
                assert(fs == "mocha"@);
            }
            assert(fs.len() > 0);
            assert((fs[0] as u32) < 128);
        }
        let name = theme_name(f.as_str());
        let ghost before = r@.map_values(|n: String| n@);
        r.push(name);
        proof {
            assert(ascii_upper(seq![fs[0]]) + fs.drop_first() + Seq::<char>::empty() == capitalized(fs));
            assert(ascii_upper(seq![fs[0]]) =~= seq![crate::chars::ascii_upper_char(fs[0])]);
            if i == 0 {
                assert(crate::chars::ascii_upper_char('l') == 'L');
                assert(name@ =~= builtin_names_spec()[0]);
            } else if i == 1 {
                assert(crate::chars::ascii_upper_char('f') == 'F');
                assert(name@ =~= builtin_names_spec()[1]);
            } else if i == 2 {
                assert(crate::chars::ascii_upper_char('m') == 'M');
                assert(name@ =~= builtin_names_spec()[2]);
            } else {
                assert(crate::chars::ascii_upper_char('m') == 'M');
                assert(name@ =~= builtin_names_spec()[3]);
            }
            assert(r@.map_values(|n: String| n@) =~= before.push(name@));
            assert(builtin_names_spec().take(i + 1) =~= builtin_names_spec().take(i as int).push(
                builtin_names_spec()[i as int],
            ));
        }
        i = i + 1;
    }
    proof {
        assert(builtin_names_spec().take(4) =~= builtin_names_spec());
    }
    r
}

/// The first position of `name` among `names`, else the first theme.
pub open spec fn theme_choice(names: Seq<Seq<char>>, name: Seq<char>) -> int
    decreases names.len(),
{
    if names.len() == 0 {
        0
    } else if names[0] == name {
        0
    } else if theme_found(names.drop_first(), name) {
        1 + theme_choice(names.drop_first(), name)
    } else {
        0
    }
}

/// Whether `name` is among `names`.
pub open spec fn theme_found(names: Seq<Seq<char>>, name: Seq<char>) -> bool {
    exists|i: int| 0 <= i < names.len() && names[i] == name
}

/// The position of the theme used for an appearance set to `name`: the
/// first of `names` called `name`, else the first of them.
pub open spec fn first_named(names: Seq<Seq<char>>, name: Seq<char>) -> int {
    if theme_found(names, name) {
        choose|i: int| 0 <= i < names.len() && names[i] == name && forall|j: int| 0 <= j < i ==> names[j] != name
    } else {
        0
    }
}

/// The themes list, by name: the four built-in themes in the Catppuccin
/// order, then the user's themes (those read from the themes folder), in
/// the order given.
pub fn themes_list(user: Vec<String>) -> (r: Vec<String>)
    ensures
        r@.map_values(|n: String| n@) == builtin_names_spec() + user@.map_values(|n: String| n@),
{
    let mut r = builtin_theme_names();
    let ghost head = r@.map_values(|n: String| n@);
    let mut user = user;
    let ghost uv = user@.map_values(|n: String| n@);
    r.append(&mut user);
    proof {
        assert(r@.map_values(|n: String| n@) =~= head + uv);
    }
    r
}

/// The theme used for the appearance: the first of `names` called `name`,
/// else the first of them.
pub fn select_theme(names: &Vec<String>, name: &str) -> (r: usize)
    requires
        names@.len() > 0,
    ensures
        r < names@.len(),
        r == first_named(names@.map_values(|n: String| n@), name@),
        theme_found(names@.map_values(|n: String| n@), name@) ==> names@[r as int]@ == name@ && forall|j: int|
            0 <= j < r ==> names@[j]@ != name@,
        !theme_found(names@.map_values(|n: String| n@), name@) ==> r == 0,
{
    let ghost nv = names@.map_values(|n: String| n@);
    let mut i: usize = 0;
    while i < names.len()
        invariant
            i <= names@.len(),
            nv == names@.map_values(|n: String| n@),
            forall|j: int| 0 <= j < i ==> names@[j]@ != name@,
        decreases names.len() - i,
    {
        if same_str(names[i].as_str(), name) {
            proof {
                assert(nv[i as int] == name@);
            }
            return i;
        }
        i = i + 1;
    }
    proof {
        assert forall|j: int| 0 <= j < nv.len() implies nv[j] != name@ by {
            assert(nv[j] == names@[j]@);
        }
    }
    0
}

/// The themes the light and dark appearance use.
#[derive(Debug)]
pub struct ThemeSettings {
    pub light: String,
    pub dark: String,
}

/// The theme name the dark (or light) appearance uses under `s`.
pub open spec fn appearance(s: ThemeSettings, dark: bool) -> Seq<char> {
    if dark {
        s.dark@
    } else {
        s.light@
    }
}

/// `after` is `before` with the dark (or light) appearance set to `name`.
pub open spec fn defaults_set(before: ThemeSettings, name: Seq<char>, dark: bool, after: ThemeSettings) -> bool {
    &&& appearance(after, dark) == name
    &&& appearance(after, !dark) == appearance(before, !dark)
}

/// Setting the default theme of an appearance and reading it back: after
/// `set_default(name, dark)`, that appearance uses `name`, the other
/// appearance keeps its theme, and the theme selected for that appearance
/// among `names` is the one `select_theme` picks for `name`.
pub proof fn law_set_default_then_read(
    before: ThemeSettings,
    name: Seq<char>,
    dark: bool,
    after: ThemeSettings,
    names: Seq<Seq<char>>,
)
    requires
        defaults_set(before, name, dark, after),
    ensures
        appearance(after, dark) == name,
        appearance(after, !dark) == appearance(before, !dark),
        first_named(names, appearance(after, dark)) == first_named(names, name),
{
}

impl ThemeSettings {
    /// Catppuccin Latte when light, Catppuccin Mocha when dark.
    pub fn default_settings() -> (r: ThemeSettings)
        ensures
            r.light@ == "Catppuccin Latte"@,
            r.dark@ == "Catppuccin Mocha"@,
    {
        ThemeSettings { light: "Catppuccin Latte".to_string(), dark: "Catppuccin Mocha".to_string() }
    }

    /// Default Light Theme (`dark` false) or Default Dark Theme (`dark`
    /// true) on the theme `name`: that appearance now uses it, the other is
    /// kept. The settings are then stored.
    pub fn set_default(&mut self, name: &str, dark: bool)
        ensures
            dark ==> final(self).dark@ == name@ && final(self).light@ == old(self).light@,
            !dark ==> final(self).light@ == name@ && final(self).dark@ == old(self).dark@,
            defaults_set(*old(self), name@, dark, *final(self)),
    {
        if dark {
            self.dark = name.to_string();
        } else {
            self.light = name.to_string();
        }
    }

    /// The toast after storing the settings changed by `set_default`
    /// (`true` for an error toast) and its message, by whether storing
    /// failed.
    pub fn set_default_toast(dark: bool, failed: bool) -> (r: (bool, String))
        ensures
            r.0 == failed,
            r.1@ == match (dark, failed) {
                (false, false) => "Changed light theme"@,
                (false, true) => "Failed to change light theme"@,
                (true, false) => "Changed dark theme"@,
                (true, true) => "Failed to change dark theme"@,
            },
    {
        let message = match (dark, failed) {
            (false, false) => "Changed light theme",
            (false, true) => "Failed to change light theme",
            (true, false) => "Changed dark theme",
            (true, true) => "Failed to change dark theme",
        };
        (failed, message.to_string())
    }

    /// The name of the theme for a dark or light appearance.
    pub fn for_appearance(&self, dark: bool) -> (r: String)
        ensures
            dark ==> r@ == self.dark@,
            !dark ==> r@ == self.light@,
            r@ == appearance(*self, dark),
    {
        if dark {
            self.dark.clone()
        } else {
            self.light.clone()
        }
    }
}

/// The entry of a theme in the themes list (item id `id`): found by its
/// name, with the actions Select Theme, Default Light Theme (secondary
/// modifier and `l`) and Default Dark Theme (secondary modifier and `d`).
pub fn theme_entry(id: u64, name: &str, macos: bool) -> (r: Item)
    ensures
        r.id == id,
        r.keywords@.map_values(|k: String| k@) == seq![name@],
        r.actions@.len() == 3,
        action_is(r.actions@[0], "Select Theme"@, None),
        action_is(r.actions@[1], "Default Light Theme"@, Some(("l"@, cmd_modifiers(macos)))),
        action_is(r.actions@[2], "Default Dark Theme"@, Some(("d"@, cmd_modifiers(macos)))),
        !r.preview,
        r.weight is None,
{
    let mut keywords: Vec<String> = Vec::new();
    keywords.push(name.to_string());
    let mut actions: Vec<Action> = Vec::new();
    actions.push(Action::new("Select Theme", None, false));
    actions.push(Action::new("Default Light Theme", Some(Shortcut::new("l").cmd(macos)), false));
    actions.push(Action::new("Default Dark Theme", Some(Shortcut::new("d").cmd(macos)), false));
    proof {
        assert(keywords@.map_values(|k: String| k@) =~= seq![name@]);
    }
    ItemBuilder::new(id).keywords(keywords).actions(actions).build()
}

} // verus!

//! The Bitwarden vault: the logins it lists and their actions, what the
//! `bw` command is run with, the steps that unlock an account, and the
//! forms that add one.

use vstd::prelude::*;

use crate::form::{Input, InputKind, Validator};
use crate::chars::{str_concat, lower_case, same_str, string_from_utf8, to_lowercase, utf8_decode};
use crate::keys::Modifiers;
use crate::list::{Accessory, Item, ItemBuilder};
use crate::paths::{join_spec, path_join};
use crate::sort::{is_text_order, sort_by_text};
use crate::state::{Action, Shortcut, StateModel, action_is, pushed};
use crate::web::{open_url, open_url_spec, url_parse};

verus! {

/// An address stored with a login.
#[derive(Debug)]
pub struct BitwardenUri {
    pub uri: String,
}

/// The secrets of a login.
#[derive(Debug)]
pub struct BitwardenLoginItem {
    pub username: String,
    pub password: String,
    pub totp: Option<String>,
    pub uris: Vec<BitwardenUri>,
}

/// A vault item: a login, or anything else the vault holds.
#[derive(Debug)]
pub enum BitwardenItem {
    Login { id: String, name: String, notes: Option<String>, login: BitwardenLoginItem },
    Other,
}

/// A configured account.
#[derive(Debug)]
pub struct BitwardenAccount {
    pub id: String,
    pub client_id: String,
    pub client_secret: String,
    pub instance: String,
    pub password: Option<String>,
    pub session: Option<String>,
}

/// What `bw status` reports of the vault.
#[derive(Clone, Copy, Debug, PartialEq, Eq, Structural)]
pub enum BitwardenVaultStatus {
    Unauthenticated,
    Locked,
    Unlocked,
}

/// The fields a login can paste.
pub open spec fn fields_spec(login: BitwardenLoginItem) -> Seq<Seq<char>> {
    if login.totp is Some {
        seq!["username"@, "password"@, "totp"@]
    } else {
        seq!["username"@, "password"@]
    }
}

/// A field a login knows.
pub open spec fn is_field(field: Seq<char>) -> bool {
    field == "username"@ || field == "password"@ || field == "totp"@
}

/// The label and shortcut key of a field.
pub open spec fn field_label(field: Seq<char>) -> (Seq<char>, Seq<char>) {
    if field == "username"@ {
        ("Username"@, "u"@)
    } else if field == "password"@ {
        ("Password"@, "p"@)
    } else {
        ("TOTP 2FA"@, "t"@)
    }
}

/// The paste action of each field of a login is bound to the field's
/// initial (`u` for the username, `p` for the password, `t` for the
/// one-time code), and its label starts with that initial as a capital;
/// no two fields share a key.
pub proof fn law_field_keys_are_initials(login: BitwardenLoginItem)
    ensures
        forall|i: int|
            #![trigger fields_spec(login)[i]]
            0 <= i < fields_spec(login).len() ==> {
                let f = fields_spec(login)[i];
                &&& field_label(f).1 == seq![f[0]]
                &&& field_label(f).0[0] == crate::chars::ascii_upper_char(f[0])
            },
        forall|i: int, j: int|
            #![trigger fields_spec(login)[i], fields_spec(login)[j]]
            0 <= i < j < fields_spec(login).len() ==> field_label(fields_spec(login)[i]).1 != field_label(
                fields_spec(login)[j],
            ).1,
{
    reveal_strlit("username");
    reveal_strlit("password");
    reveal_strlit("totp");
    reveal_strlit("Username");
    reveal_strlit("Password");
    reveal_strlit("TOTP 2FA");
    reveal_strlit("u");
    reveal_strlit("p");
    reveal_strlit("t");
    assert("username"@[0] == 'u' && "password"@[0] == 'p' && "totp"@[0] == 't');
    assert("Username"@[0] == 'U' && "Password"@[0] == 'P' && "TOTP 2FA"@[0] == 'T');
    assert("u"@ =~= seq!['u'] && "p"@ =~= seq!['p'] && "t"@ =~= seq!['t']);
    assert(seq!['u'][0] != seq!['p'][0] && seq!['u'][0] != seq!['t'][0] && seq!['p'][0] != seq!['t'][0]);
}

/// The modifiers of a launcher shortcut: the command key on macOS, control
/// elsewhere.
pub open spec fn cmd_modifiers(macos: bool) -> Modifiers {
    if macos {
        Modifiers { platform: true, ..Modifiers::none_spec() }
    } else {
        Modifiers { control: true, ..Modifiers::none_spec() }
    }
}

impl BitwardenLoginItem {
    /// `username` and `password`, and `totp` where the login has one.
    pub fn fields(&self) -> (r: Vec<String>)
        ensures
            r@.map_values(|f: String| f@) == fields_spec(*self),
    {
        let mut r: Vec<String> = Vec::new();
        r.push("username".to_string());
        r.push("password".to_string());
        if self.totp.is_some() {
            r.push("totp".to_string());
        }
        proof {
            assert(r@.map_values(|f: String| f@) =~= fields_spec(*self));
        }
        r
    }

    /// The label of a field and its shortcut (the secondary modifier and
    /// the field's initial).
    pub fn get_label(&self, field: &str, macos: bool) -> (r: (String, Shortcut))
        requires
            is_field(field@),
        ensures
            r.0@ == field_label(field@).0,
            r.1.inner.key@ == field_label(field@).1,
            r.1.inner.modifiers == cmd_modifiers(macos),
            r.1.inner.ime_key is None,
    {
        if same_str(field, "username") {
            ("Username".to_string(), Shortcut::new("u").cmd(macos))
        } else if same_str(field, "password") {
            ("Password".to_string(), Shortcut::new("p").cmd(macos))
        } else {
            ("TOTP 2FA".to_string(), Shortcut::new("t").cmd(macos))
        }
    }

    /// The action that pastes a field.
    pub fn get_action(&self, field: &str, macos: bool) -> (r: Action)
        requires
            is_field(field@),
        ensures
            action_is(r, field_label(field@).0, Some((field_label(field@).1, cmd_modifiers(macos)))),
    {
        let (label, shortcut) = self.get_label(field, macos);
        Action::new(label.as_str(), Some(shortcut), false)
    }

    /// The paste actions of every field, in field order.
    pub fn get_actions(&self, macos: bool) -> (r: Vec<Action>)
        ensures
            r@.len() == fields_spec(*self).len(),
            forall|i: int|
                0 <= i < r@.len() ==> action_is(
                    #[trigger] r@[i],
                    field_label(fields_spec(*self)[i]).0,
                    Some((field_label(fields_spec(*self)[i]).1, cmd_modifiers(macos))),
                ),
    {
        let fields = self.fields();
        let mut r: Vec<Action> = Vec::new();
        let mut i: usize = 0;
        while i < fields.len()
            invariant
                i <= fields@.len(),
                fields@.map_values(|f: String| f@) == fields_spec(*self),
                r@.len() == i,
                forall|k: int|
                    0 <= k < i ==> action_is(
                        #[trigger] r@[k],
                        field_label(fields_spec(*self)[k]).0,
                        Some((field_label(fields_spec(*self)[k]).1, cmd_modifiers(macos))),
                    ),
            decreases fields.len() - i,
        {
            proof {
                assert(fields@.map_values(|f: String| f@)[i as int] == fields@[i as int]@);
                assert(fields@.map_values(|f: String| f@).len() == fields@.len());
                let fs = fields_spec(*self);
                if self.totp is Some {
                    assert(fs =~= seq!["username"@, "password"@, "totp"@]);
                } else {
                    assert(fs =~= seq!["username"@, "password"@]);
                }
                if i == 0 {
                    assert(fs[0] == "username"@);
                } else if i == 1 {
                    assert(fs[1] == "password"@);
                } else {
                    assert(fs[2] == "totp"@);
                }
                assert(is_field(fields_spec(*self)[i as int]));
            }
            r.push(self.get_action(fields[i].as_str(), macos));
            i = i + 1;
        }
        r
    }

    /// The values a login pastes at first: its username and password (the
    /// one-time code arrives later).
    pub fn initial_values(&self) -> (r: (Vec<String>, Vec<(String, String)>))
        ensures
            r.0@.map_values(|f: String| f@) == seq!["username"@, "password"@],
            r.1@.map_values(|e: (String, String)| (e.0@, e.1@)) == seq![
                ("username"@, self.username@),
                ("password"@, self.password@),
            ],
    {
        let mut keys: Vec<String> = Vec::new();
        keys.push("username".to_string());
        keys.push("password".to_string());
        let mut values: Vec<(String, String)> = Vec::new();
        values.push(("username".to_string(), self.username.clone()));
        values.push(("password".to_string(), self.password.clone()));
        proof {
            assert(keys@.map_values(|f: String| f@) =~= seq!["username"@, "password"@]);
            assert(values@.map_values(|e: (String, String)| (e.0@, e.1@)) =~= seq![
                ("username"@, self.username@),
                ("password"@, self.password@),
            ]);
        }
        (keys, values)
    }
}

/// The values a login pastes once its one-time code `totp` arrived: the
/// three fields, and the code under `totp` (replacing an earlier one).
pub fn with_totp(values: &mut (Vec<String>, Vec<(String, String)>), totp: &str)
    ensures
        final(values).0@.map_values(|f: String| f@) == seq!["username"@, "password"@, "totp"@],
        final(values).1@.map_values(|e: (String, String)| (e.0@, e.1@)) == old(values).1@.map_values(
            |e: (String, String)| (e.0@, e.1@),
        ).filter(|e: (Seq<char>, Seq<char>)| e.0 != "totp"@).push(("totp"@, totp@)),
{
    let mut keys: Vec<String> = Vec::new();
    keys.push("username".to_string());
    keys.push("password".to_string());
    keys.push("totp".to_string());
    proof {
        assert(keys@.map_values(|f: String| f@) =~= seq!["username"@, "password"@, "totp"@]);
    }
    values.0 = keys;
    let ghost old_view = values.1@.map_values(|e: (String, String)| (e.0@, e.1@));
    let mut kept: Vec<(String, String)> = Vec::new();
    let mut i: usize = 0;
    while i < values.1.len()
        invariant
            i <= values.1@.len(),
            old_view == values.1@.map_values(|e: (String, String)| (e.0@, e.1@)),
            kept@.map_values(|e: (String, String)| (e.0@, e.1@)) == old_view.take(i as int).filter(
                |e: (Seq<char>, Seq<char>)| e.0 != "totp"@,
            ),
        decreases values.1.len() - i,
    {
        let ghost before = kept@.map_values(|e: (String, String)| (e.0@, e.1@));
        proof {
            assert(old_view.take(i + 1) =~= old_view.take(i as int).push(old_view[i as int]));
            old_view.take(i as int).lemma_filter_push(old_view[i as int], |e: (Seq<char>, Seq<char>)| e.0 != "totp"@);
        }
        if !same_str(values.1[i].0.as_str(), "totp") {
            kept.push((values.1[i].0.clone(), values.1[i].1.clone()));
            proof {
                assert(kept@.map_values(|e: (String, String)| (e.0@, e.1@)) =~= before.push(old_view[i as int]));
            }
        }
        proof {
            assert(old_view.take(i + 1) =~= old_view.take(i as int).push(old_view[i as int]));
        }
        i = i + 1;
    }
    let ghost before = kept@.map_values(|e: (String, String)| (e.0@, e.1@));
    kept.push(("totp".to_string(), totp.to_string()));
    proof {
        assert(old_view.take(i as int) =~= old_view);
        assert(kept@.map_values(|e: (String, String)| (e.0@, e.1@)) =~= before.push(("totp"@, totp@)));
    }
    values.1 = kept;
}

/// The keywords a login is found by: its name, then its addresses.
pub open spec fn login_keywords(name: Seq<char>, login: BitwardenLoginItem) -> Seq<Seq<char>> {
    seq![name] + login.uris@.map_values(|u: BitwardenUri| u.uri@)
}

/// The address that the Open action of a login opens: its first address,
/// with `https://` in front unless it starts with `http`, where that parses.
pub open spec fn login_url(login: BitwardenLoginItem) -> Option<Seq<char>> {
    if login.uris@.len() > 0 {
        open_url_spec(login.uris@[0].uri@)
    } else {
        None
    }
}

/// The actions of a login: Autofill; Open (secondary modifier and `o`)
/// where it has an address that parses; then the paste action of each
/// field.
pub open spec fn login_actions(login: BitwardenLoginItem, macos: bool, a: Seq<Action>) -> bool {
    let fields = fields_spec(login);
    let n: int = if login_url(login) is Some {
        2
    } else {
        1
    };
    &&& a.len() == n + fields.len()
    &&& action_is(a[0], "Autofill"@, None)
    &&& login_url(login) is Some ==> action_is(a[1], "Open"@, Some(("o"@, cmd_modifiers(macos))))
    &&& forall|i: int|
        0 <= i < fields.len() ==> action_is(
            #[trigger] a[n + i],
            field_label(fields[i]).0,
            Some((field_label(fields[i]).1, cmd_modifiers(macos))),
        )
}

/// `e` is the list entry of the login `name` with item id `id`, showing
/// the login's username, with the address its Open action opens.
pub open spec fn is_login_entry(id: u64, name: Seq<char>, login: BitwardenLoginItem, macos: bool, e: (Item, Option<String>)) -> bool {
    &&& e.0.id == id
    &&& e.0.keywords@.map_values(|k: String| k@) == login_keywords(name, login)
    &&& login_actions(login, macos, e.0.actions@)
    &&& !e.0.preview
    &&& e.0.weight is None
    &&& e.0.accessory matches Some(Accessory::Text(u)) && u@ == login.username@
    &&& match e.1 {
        Some(u) => login_url(login) == Some(u@),
        None => login_url(login) is None,
    }
}

/// The list entry of the login `name` with item id `id`, and the address
/// its Open action opens.
pub fn login_entry(id: u64, name: &str, login: &BitwardenLoginItem, macos: bool) -> (r: (Item, Option<String>))
    ensures
        is_login_entry(id, name@, *login, macos, r),
{
    let mut keywords: Vec<String> = Vec::new();
    keywords.push(name.to_string());
    let mut i: usize = 0;
    while i < login.uris.len()
        invariant
            i <= login.uris@.len(),
            keywords@.map_values(|k: String| k@) == seq![name@] + login.uris@.take(i as int).map_values(
                |u: BitwardenUri| u.uri@,
            ),
        decreases login.uris.len() - i,
    {
        let ghost before = keywords@.map_values(|k: String| k@);
        let u = login.uris[i].uri.clone();
        keywords.push(u);
        proof {
            assert(keywords@.map_values(|k: String| k@) =~= before.push(login.uris@[i as int].uri@));
            assert(login.uris@.take(i + 1) =~= login.uris@.take(i as int).push(login.uris@[i as int]));
            assert(login.uris@.take(i + 1).map_values(|u: BitwardenUri| u.uri@) =~= login.uris@.take(
                i as int,
            ).map_values(|u: BitwardenUri| u.uri@).push(login.uris@[i as int].uri@));
        }
        i = i + 1;
        proof {
            assert(keywords@.map_values(|k: String| k@) =~= seq![name@] + login.uris@.take(i as int).map_values(
                |u: BitwardenUri| u.uri@,
            ));
        }
    }
    proof {
        assert(login.uris@.take(i as int) =~= login.uris@);
    }
    let url = if login.uris.len() > 0 {
        open_url(login.uris[0].uri.as_str())
    } else {
        None
    };
    let mut actions: Vec<Action> = Vec::new();
    actions.push(Action::new("Autofill", None, false));
    if url.is_some() {
        actions.push(Action::new("Open", Some(Shortcut::new("o").cmd(macos)), false));
    }
    let ghost n = actions@.len();
    let mut fields = login.get_actions(macos);
    let ghost fa = fields@;
    actions.append(&mut fields);
    proof {
        assert forall|i: int| 0 <= i < fields_spec(*login).len() implies action_is(
            #[trigger] actions@[n + i],
            field_label(fields_spec(*login)[i]).0,
            Some((field_label(fields_spec(*login)[i]).1, cmd_modifiers(macos))),
        ) by {
            assert(actions@[n + i] == fa[i]);
        }
    }
    let item = ItemBuilder::new(id).keywords(keywords).actions(actions).accessory(
        Accessory::Text(login.username.clone()),
    ).build();
    (item, url)
}

/// The positions of the logins among `items`, in order.
pub open spec fn login_positions(items: Seq<BitwardenItem>) -> Seq<int>
    decreases items.len(),
{
    if items.len() == 0 {
        Seq::empty()
    } else if items.last() is Login {
        login_positions(items.drop_last()).push(items.len() - 1)
    } else {
        login_positions(items.drop_last())
    }
}

/// `e` is the list entry of the login at position `p` of `items`.
pub open spec fn entry_of(items: Seq<BitwardenItem>, ids: Seq<u64>, macos: bool, p: int, e: (Item, Option<String>)) -> bool {
    &&& 0 <= p < items.len()
    &&& match items[p] {
        BitwardenItem::Login { name, login, .. } => is_login_entry(ids[p], name@, login, macos, e),
        BitwardenItem::Other => false,
    }
}

/// `r` holds the list entry of each login at `positions`, in order.
pub open spec fn entries_at(
    positions: Seq<int>,
    items: Seq<BitwardenItem>,
    ids: Seq<u64>,
    macos: bool,
    r: Seq<(Item, Option<String>)>,
) -> bool {
    &&& r.len() == positions.len()
    &&& forall|k: int| 0 <= k < r.len() ==> entry_of(items, ids, macos, positions[k], #[trigger] r[k])
}

/// The list entries of the logins among `items`, in order, with the
/// address each Open action opens; `ids[i]` is the item id of `items[i]`.
pub fn login_entries(items: &Vec<BitwardenItem>, ids: &Vec<u64>, macos: bool) -> (r: Vec<(Item, Option<String>)>)
    requires
        items.len() == ids.len(),
    ensures
        entries_at(login_positions(items@), items@, ids@, macos, r@),
{
    let mut r: Vec<(Item, Option<String>)> = Vec::new();
    let mut i: usize = 0;
    while i < items.len()
        invariant
            i <= items@.len(),
            items.len() == ids.len(),
            entries_at(login_positions(items@.take(i as int)), items@, ids@, macos, r@),
        decreases items.len() - i,
    {
        let ghost old_r = r@;
        let ghost old_lp = login_positions(items@.take(i as int));
        proof {
            assert(items@.take(i + 1).drop_last() =~= items@.take(i as int));
            assert(items@.take(i + 1).last() == items@[i as int]);
        }
        match &items[i] {
            BitwardenItem::Login { name, login, .. } => {
                let e = login_entry(ids[i], name.as_str(), login, macos);
                r.push(e);
                proof {
                    let lp = login_positions(items@.take(i + 1));
                    assert(lp == old_lp.push(i as int));
                    assert(entry_of(items@, ids@, macos, i as int, e));
                    assert forall|k: int| 0 <= k < r@.len() implies entry_of(items@, ids@, macos, lp[k], #[trigger] r@[k]) by {
                        if k < old_r.len() {
                            assert(r@[k] == old_r[k]);
                            assert(lp[k] == old_lp[k]);
                        }
                    }
                }
            },
            BitwardenItem::Other => {
                proof {
                    assert(login_positions(items@.take(i + 1)) == old_lp);
                }
            },
        }
        i = i + 1;
    }
    proof {
        assert(items@.take(i as int) =~= items@);
    }
    r
}

// ------------------------------------------------------------ the bw tool

/// The values of some strings.
pub open spec fn str_views(v: Seq<String>) -> Seq<Seq<char>> {
    v.map_values(|s: String| s@)
}

fn strings(parts: &Vec<&str>) -> (r: Vec<String>)
    ensures
        str_views(r@) == parts@.map_values(|p: &str| p@),
{
    let mut r: Vec<String> = Vec::new();
    let mut i: usize = 0;
    while i < parts.len()
        invariant
            i <= parts@.len(),
            str_views(r@) == parts@.take(i as int).map_values(|p: &str| p@),
        decreases parts.len() - i,
    {
        let ghost before = str_views(r@);
        r.push(parts[i].to_string());
        proof {
            assert(str_views(r@) =~= before.push(parts@[i as int]@));
            assert(parts@.take(i + 1) =~= parts@.take(i as int).push(parts@[i as int]));
            assert(parts@.take(i + 1).map_values(|p: &str| p@) =~= parts@.take(i as int).map_values(|p: &str| p@).push(
                parts@[i as int]@,
            ));
        }
        i = i + 1;
    }
    proof {
        assert(parts@.take(i as int) =~= parts@);
    }
    r
}

/// The directory `bw` keeps an account's data in: `bitwarden/<id>` under
/// the launcher's data directory.
pub open spec fn account_dir_spec(data_dir: Seq<char>, id: Seq<char>) -> Seq<char> {
    join_spec(join_spec(data_dir, "bitwarden"@), id)
}

/// The environment `bw` runs in for an account: the search path, its data
/// directory, the API key, and the session where the vault is unlocked.
pub open spec fn command_env_spec(account: BitwardenAccount, path_env: Seq<char>, data_dir: Seq<char>) -> Seq<
    (Seq<char>, Seq<char>),
> {
    let base = seq![
        ("PATH"@, path_env),
        ("BITWARDENCLI_APPDATA_DIR"@, account_dir_spec(data_dir, account.id@)),
        ("BW_CLIENTID"@, account.client_id@),
        ("BW_CLIENTSECRET"@, account.client_secret@),
    ];
    match account.session {
        Some(s) => base.push(("BW_SESSION"@, s@)),
        None => base,
    }
}

/// The values of an environment.
pub open spec fn env_view(env: Seq<(String, String)>) -> Seq<(Seq<char>, Seq<char>)> {
    env.map_values(|e: (String, String)| (e.0@, e.1@))
}

fn push_var(env: &mut Vec<(String, String)>, key: &str, value: String)
    ensures
        env_view(final(env)@) == env_view(old(env)@).push((key@, value@)),
{
    env.push((key.to_string(), value));
    proof {
        assert(env_view(env@) =~= env_view(old(env)@).push((key@, value@)));
    }
}

impl BitwardenAccount {
    /// The account's data directory under `data_dir`.
    pub fn path(&self, data_dir: &str) -> (r: String)
        ensures
            r@ == account_dir_spec(data_dir@, self.id@),
    {
        let base = path_join(data_dir, "bitwarden");
        path_join(base.as_str(), self.id.as_str())
    }

    /// The environment `bw` runs in for this account.
    pub fn command_env(&self, path_env: &str, data_dir: &str) -> (r: Vec<(String, String)>)
        ensures
            env_view(r@) == command_env_spec(*self, path_env@, data_dir@),
    {
        let mut env: Vec<(String, String)> = Vec::new();
        push_var(&mut env, "PATH", path_env.to_string());
        push_var(&mut env, "BITWARDENCLI_APPDATA_DIR", self.path(data_dir));
        push_var(&mut env, "BW_CLIENTID", self.client_id.clone());
        push_var(&mut env, "BW_CLIENTSECRET", self.client_secret.clone());
        match &self.session {
            Some(s) => push_var(&mut env, "BW_SESSION", s.clone()),
            None => {},
        }
        proof {
            assert(env_view(env@) =~= command_env_spec(*self, path_env@, data_dir@));
        }
        env
    }

    /// `status --raw --nointeraction`.
    pub fn status_args() -> (r: Vec<String>)
        ensures
            str_views(r@) == seq!["status"@, "--raw"@, "--nointeraction"@],
    {
        let v: Vec<&str> = vec!["status", "--raw", "--nointeraction"];
        let r = strings(&v);
        assert(str_views(r@) =~= seq!["status"@, "--raw"@, "--nointeraction"@]);
        r
    }

    /// `config server <instance>`.
    pub fn config_args(&self) -> (r: Vec<String>)
        ensures
            str_views(r@) == seq!["config"@, "server"@, self.instance@],
    {
        let v: Vec<&str> = vec!["config", "server", self.instance.as_str()];
        let r = strings(&v);
        assert(str_views(r@) =~= seq!["config"@, "server"@, self.instance@]);
        r
    }

    /// `login --apikey --nointeraction`.
    pub fn login_args() -> (r: Vec<String>)
        ensures
            str_views(r@) == seq!["login"@, "--apikey"@, "--nointeraction"@],
    {
        let v: Vec<&str> = vec!["login", "--apikey", "--nointeraction"];
        let r = strings(&v);
        assert(str_views(r@) =~= seq!["login"@, "--apikey"@, "--nointeraction"@]);
        r
    }

    /// `unlock <password> --raw --nointeraction`.
    pub fn unlock_args(password: &str) -> (r: Vec<String>)
        ensures
            str_views(r@) == seq!["unlock"@, password@, "--raw"@, "--nointeraction"@],
    {
        let v: Vec<&str> = vec!["unlock", password, "--raw", "--nointeraction"];
        let r = strings(&v);
        assert(str_views(r@) =~= seq!["unlock"@, password@, "--raw"@, "--nointeraction"@]);
        r
    }

    /// `list items --nointeraction`.
    pub fn list_args() -> (r: Vec<String>)
        ensures
            str_views(r@) == seq!["list"@, "items"@, "--nointeraction"@],
    {
        let v: Vec<&str> = vec!["list", "items", "--nointeraction"];
        let r = strings(&v);
        assert(str_views(r@) =~= seq!["list"@, "items"@, "--nointeraction"@]);
        r
    }

    /// `get totp <id>`.
    pub fn totp_args(id: &str) -> (r: Vec<String>)
        ensures
            str_views(r@) == seq!["get"@, "totp"@, id@],
    {
        let v: Vec<&str> = vec!["get", "totp", id];
        let r = strings(&v);
        assert(str_views(r@) =~= seq!["get"@, "totp"@, id@]);
        r
    }

    /// What the vault refresh runs before listing: nothing the first time,
    /// `sync -f` every later time.
    pub fn sync_args(first: bool) -> (r: Option<Vec<String>>)
        ensures
            first ==> r is None,
            !first ==> (r matches Some(a) && str_views(a@) == seq!["sync"@, "-f"@]),
    {
        if first {
            None
        } else {
            let v: Vec<&str> = vec!["sync", "-f"];
            let r = strings(&v);
            assert(str_views(r@) =~= seq!["sync"@, "-f"@]);
            Some(r)
        }
    }
}

// ------------------------------------------------------------- unlocking

/// Why an account could not be unlocked.
#[derive(Clone, Copy, Debug, PartialEq, Eq, Structural)]
pub enum UnlockError {
    /// `bw status` failed.
    StatusQueryFailed,
    /// Its output did not read as a status.
    InvalidStatus,
    /// `bw login` failed.
    LoginFailed,
    /// `bw unlock` printed no session.
    UnlockFailed,
    /// The session it printed is not UTF-8.
    InvalidSession,
}

/// The next step of unlocking, after `bw status`.
#[derive(Clone, Copy, Debug, PartialEq, Eq, Structural)]
pub enum UnlockStep {
    /// The vault is open: nothing more to do.
    Done,
    /// Point `bw` at the account's server and log in with the API key.
    LogIn,
    /// Unlock with the master password.
    Unlock,
}

/// The step after `bw status`, from whether it succeeded and the status its
/// output reads as (`None` where it does not read as one).
pub fn after_status(succeeded: bool, status: Option<BitwardenVaultStatus>) -> (r: Result<UnlockStep, UnlockError>)
    ensures
        !succeeded ==> r == Err::<UnlockStep, UnlockError>(UnlockError::StatusQueryFailed),
        succeeded && status is None ==> r == Err::<UnlockStep, UnlockError>(UnlockError::InvalidStatus),
        succeeded && status == Some(BitwardenVaultStatus::Unlocked) ==> r == Ok::<UnlockStep, UnlockError>(
            UnlockStep::Done,
        ),
        succeeded && status == Some(BitwardenVaultStatus::Unauthenticated) ==> r == Ok::<UnlockStep, UnlockError>(
            UnlockStep::LogIn,
        ),
        succeeded && status == Some(BitwardenVaultStatus::Locked) ==> r == Ok::<UnlockStep, UnlockError>(
            UnlockStep::Unlock,
        ),
{
    if !succeeded {
        return Err(UnlockError::StatusQueryFailed);
    }
    match status {
        None => Err(UnlockError::InvalidStatus),
        Some(BitwardenVaultStatus::Unlocked) => Ok(UnlockStep::Done),
        Some(BitwardenVaultStatus::Unauthenticated) => Ok(UnlockStep::LogIn),
        Some(BitwardenVaultStatus::Locked) => Ok(UnlockStep::Unlock),
    }
}

/// After `bw login`: on to unlocking where it succeeded.
pub fn after_login(succeeded: bool) -> (r: Result<UnlockStep, UnlockError>)
    ensures
        succeeded ==> r == Ok::<UnlockStep, UnlockError>(UnlockStep::Unlock),
        !succeeded ==> r == Err::<UnlockStep, UnlockError>(UnlockError::LoginFailed),
{
    if succeeded {
        Ok(UnlockStep::Unlock)
    } else {
        Err(UnlockError::LoginFailed)
    }
}

impl BitwardenAccount {
    /// The master password to unlock with: the remembered one, or `None`
    /// where the user must be asked.
    pub fn stored_password(&self) -> (r: Option<String>)
        ensures
            match (r, self.password) {
                (Some(a), Some(b)) => a@ == b@,
                (None, None) => true,
                _ => false,
            },
    {
        match &self.password {
            Some(p) => Some(p.clone()),
            None => None,
        }
    }

    /// The user gave `password` at the prompt; it is remembered where they
    /// asked for that.
    pub fn prompted(&mut self, password: &str, remember: bool)
        ensures
            remember ==> (final(self).password matches Some(p) && p@ == password@),
            !remember ==> final(self).password == old(self).password,
            final(self).id == old(self).id,
            final(self).client_id == old(self).client_id,
            final(self).client_secret == old(self).client_secret,
            final(self).instance == old(self).instance,
            final(self).session == old(self).session,
    {
        if remember {
            self.password = Some(password.to_string());
        }
    }

    /// `bw unlock` printed `stdout`: an empty output fails and forgets the
    /// session; otherwise the output, read as UTF-8, is the new session.
    pub fn after_unlock(&mut self, stdout: &Vec<u8>) -> (r: Result<(), UnlockError>)
        ensures
            stdout@.len() == 0 ==> r == Err::<(), UnlockError>(UnlockError::UnlockFailed) && final(self).session
                is None,
            stdout@.len() > 0 && utf8_decode(stdout@) is None ==> r == Err::<(), UnlockError>(
                UnlockError::InvalidSession,
            ) && final(self).session == old(self).session,
            stdout@.len() > 0 && utf8_decode(stdout@) is Some ==> (r == Ok::<(), UnlockError>(())
                && (final(self).session matches Some(s) && Some(s@) == utf8_decode(stdout@))),
            final(self).id == old(self).id,
            final(self).password == old(self).password,
            final(self).client_id == old(self).client_id,
            final(self).client_secret == old(self).client_secret,
            final(self).instance == old(self).instance,
    {
        if stdout.len() == 0 {
            self.session = None;
            return Err(UnlockError::UnlockFailed);
        }
        match string_from_utf8(stdout) {
            Some(s) => {
                self.session = Some(s);
                Ok(())
            },
            None => Err(UnlockError::InvalidSession),
        }
    }
}

/// The accounts filter of the vault list: shown only for more than one
/// account, with every account's items first, then each account by its id.
pub fn account_filter_options(ids: &Vec<String>) -> (r: Option<Vec<(String, String)>>)
    ensures
        ids@.len() <= 1 ==> r is None,
        ids@.len() > 1 ==> (r matches Some(o) && env_view(o@) == seq![(""@, "Show All"@)] + ids@.map_values(
            |i: String| (i@, i@),
        )),
{
    if ids.len() <= 1 {
        return None;
    }
    let mut o: Vec<(String, String)> = Vec::new();
    push_var(&mut o, "", "Show All".to_string());
    let mut i: usize = 0;
    while i < ids.len()
        invariant
            i <= ids@.len(),
            env_view(o@) == seq![(""@, "Show All"@)] + ids@.take(i as int).map_values(|i: String| (i@, i@)),
        decreases ids.len() - i,
    {
        push_var(&mut o, ids[i].as_str(), ids[i].clone());
        i = i + 1;
        proof {
            assert(env_view(o@) =~= seq![(""@, "Show All"@)] + ids@.take(i as int).map_values(
                |i: String| (i@, i@),
            ));
        }
    }
    proof {
        assert(ids@.take(i as int) =~= ids@);
    }
    Some(o)
}

impl BitwardenAccount {
    /// The entry of the account in the accounts list (item id `item_id`):
    /// found by its id, showing its instance, with the actions Edit and
    /// Delete.
    pub fn list_entry(&self, item_id: u64) -> (r: Item)
        ensures
            r.id == item_id,
            r.accessory matches Some(Accessory::Text(i)) && i@ == self.instance@,
            r.keywords@.map_values(|k: String| k@) == seq![self.id@],
            r.actions@.len() == 2,
            action_is(r.actions@[0], "Edit"@, None),
            action_is(r.actions@[1], "Delete"@, None),
            !r.preview,
            r.weight is None,
    {
        let mut keywords: Vec<String> = Vec::new();
        keywords.push(self.id.clone());
        let mut actions: Vec<Action> = Vec::new();
        actions.push(Action::new("Edit", None, false));
        actions.push(Action::new("Delete", None, false));
        proof {
            assert(keywords@.map_values(|k: String| k@) =~= seq![self.id@]);
        }
        ItemBuilder::new(item_id).keywords(keywords).actions(actions).accessory(Accessory::Text(self.instance.clone())).build()
    }
}

/// `r` is `items` in descending order of text `keys` (the reverse of their
/// ascending order, ties in their order).
pub open spec fn sorted_text_desc_from<T>(r: Seq<T>, items: Seq<T>, keys: Seq<Seq<char>>) -> bool {
    exists|p: Seq<int>| is_text_order(p, keys) && r == p.map_values(|i: int| items[i]).reverse()
}

/// The ids of some accounts.
pub open spec fn account_ids(a: Seq<BitwardenAccount>) -> Seq<Seq<char>> {
    a.map_values(|x: BitwardenAccount| x.id@)
}

/// The accounts as the accounts list shows them: by descending id.
pub fn accounts_by_id_desc(accounts: Vec<BitwardenAccount>) -> (r: Vec<BitwardenAccount>)
    ensures
        sorted_text_desc_from(r@, accounts@, account_ids(accounts@)),
{
    let ghost orig = accounts@;
    let mut keys: Vec<String> = Vec::new();
    let mut i: usize = 0;
    while i < accounts.len()
        invariant
            i <= accounts@.len(),
            keys@.map_values(|k: String| k@) == account_ids(accounts@.take(i as int)),
        decreases accounts.len() - i,
    {
        let ghost before = keys@.map_values(|k: String| k@);
        keys.push(accounts[i].id.clone());
        proof {
            assert(keys@.map_values(|k: String| k@) =~= before.push(accounts@[i as int].id@));
            assert(accounts@.take(i + 1) =~= accounts@.take(i as int).push(accounts@[i as int]));
            assert(account_ids(accounts@.take(i + 1)) =~= account_ids(accounts@.take(i as int)).push(
                accounts@[i as int].id@,
            ));
        }
        i = i + 1;
    }
    proof {
        assert(accounts@.take(i as int) =~= accounts@);
    }
    let mut asc = sort_by_text(accounts, keys);
    let ghost sorted = asc@;
    let n = asc.len();
    let mut out: Vec<BitwardenAccount> = Vec::new();
    proof {
        assert(sorted.take(n as int) =~= sorted);
        assert(sorted.skip(n as int).reverse() =~= Seq::<BitwardenAccount>::empty());
    }
    while asc.len() > 0
        invariant
            asc@.len() <= n,
            asc@ == sorted.take(asc@.len() as int),
            out@ == sorted.skip(asc@.len() as int).reverse(),
            n == sorted.len(),
        decreases asc.len(),
    {
        let ghost before = asc@;
        let ghost out_before = out@;
        let a = asc.pop().unwrap();
        out.push(a);
        proof {
            let m = asc@.len() as int;
            assert(asc@ =~= before.drop_last());
            assert(a == sorted[m]);
            assert(asc@ =~= sorted.take(m));
            assert(sorted.skip(m) =~= seq![sorted[m]] + sorted.skip(m + 1));
            assert(out@ =~= sorted.skip(m).reverse());
        }
    }
    proof {
        assert(sorted.skip(0) =~= sorted);
    }
    out
}

impl BitwardenAccount {
    /// Delete in the accounts list: the stack goes back to its first view,
    /// and the account's data directory under `data_dir` is returned, for
    /// the caller to remove with the account's record.
    pub fn on_delete(&self, data_dir: &str, state: &mut StateModel) -> (r: String)
        ensures
            r@ == account_dir_spec(data_dir@, self.id@),
            final(state).inner.stack@ == old(state).inner.stack@.take(
                if old(state).inner.stack@.len() > 0 { 1int } else { 0int },
            ),
    {
        state.reset();
        self.path(data_dir)
    }
}

/// The view the vault command opens.
#[derive(Clone, Copy, Debug, PartialEq, Eq, Structural)]
pub enum VaultView {
    /// The form that adds an account.
    AccountForm,
    /// The list of the vault's logins.
    VaultList,
}

/// The id of the view `v` is pushed under.
pub open spec fn vault_view_id(v: VaultView) -> Seq<char> {
    match v {
        VaultView::AccountForm => "bitwarden_account_form"@,
        VaultView::VaultList => "bitwarden_list"@,
    }
}

/// Runs the vault command with `stored_accounts` accounts stored: the form
/// that adds one where there is none, else the vault list, is pushed.
pub fn open_vault(state: &mut StateModel, stored_accounts: usize) -> (r: VaultView)
    ensures
        r == (if stored_accounts == 0 { VaultView::AccountForm } else { VaultView::VaultList }),
        pushed(old(state).inner.stack@, vault_view_id(r), final(state).inner.stack@),
{
    if stored_accounts == 0 {
        state.push("bitwarden_account_form".to_string());
        VaultView::AccountForm
    } else {
        state.push("bitwarden_list".to_string());
        VaultView::VaultList
    }
}

/// The error shown when a new account's identifier `id` is one of the
/// stored `ids`: `Account Identifier already used` (the account is saved all
/// the same).
pub fn id_in_use(ids: &Vec<String>, id: &str) -> (r: Option<String>)
    ensures
        (exists|i: int| 0 <= i < ids@.len() && #[trigger] ids@[i]@ == id@) ==> (r matches Some(m) && m@
            == "Account Identifier already used"@),
        !(exists|i: int| 0 <= i < ids@.len() && #[trigger] ids@[i]@ == id@) ==> r is None,
{
    let mut i: usize = 0;
    while i < ids.len()
        invariant
            i <= ids@.len(),
            forall|j: int| 0 <= j < i ==> (#[trigger] ids@[j])@ != id@,
        decreases ids.len() - i,
    {
        if same_str(ids[i].as_str(), id) {
            return Some("Account Identifier already used".to_string());
        }
        i = i + 1;
    }
    None
}

/// The action of the vault list that opens the accounts list (secondary
/// modifier and `,`).
pub fn list_accounts_action(macos: bool) -> (r: Action)
    ensures
        action_is(r, "List Accounts"@, Some((","@, cmd_modifiers(macos)))),
{
    Action::new("List Accounts", Some(Shortcut::new(",").cmd(macos)), false)
}

/// The action of the accounts list that adds one (secondary modifier and
/// `n`).
pub fn add_account_action(macos: bool) -> (r: Action)
    ensures
        action_is(r, "Add Account"@, Some(("n"@, cmd_modifiers(macos)))),
{
    Action::new("Add Account", Some(Shortcut::new("n").cmd(macos)), false)
}

// ------------------------------------------------------------- autofill

/// How many times autofill tries before it gives up.
pub open spec fn max_autofill_tries() -> u32 {
    900
}

/// Autofill in progress: the fields left to type, how often it waited,
/// and what the last field typed.
pub struct Autofill {
    pub fields: Vec<String>,
    pub next: usize,
    pub tries: u32,
    pub prev: String,
}

/// What autofill does next.
#[derive(Clone, Copy, Debug, PartialEq, Eq, Structural)]
pub enum AutofillStep {
    /// Type the field at this index.
    Type(usize),
    /// Wait a moment, then try the same field again.
    Wait,
    /// Every field is typed.
    Done,
    /// It waited too often.
    TimedOut,
}

impl Autofill {
    /// Autofill of `fields`, none typed yet.
    pub fn new(fields: Vec<String>) -> (r: Autofill)
        ensures
            r.fields@ == fields@,
            r.next == 0,
            r.tries == 0,
            r.prev@.len() == 0,
    {
        Autofill { fields, next: 0, tries: 0, prev: String::new() }
    }

    /// The field to type first.
    pub fn start(&self) -> (r: AutofillStep)
        ensures
            self.next < self.fields@.len() ==> r == AutofillStep::Type(self.next),
            self.next >= self.fields@.len() ==> r == AutofillStep::Done,
    {
        if self.next < self.fields.len() {
            AutofillStep::Type(self.next)
        } else {
            AutofillStep::Done
        }
    }

    /// Typing the current field gave `typed`: where it went through, what it
    /// typed is remembered and the next field follows; where not, autofill
    /// waits, until it has waited more than 900 times.
    pub fn on_typed(&mut self, typed: Option<String>) -> (r: AutofillStep)
        requires
            old(self).next < old(self).fields@.len(),
        ensures
            final(self).fields@ == old(self).fields@,
            match typed {
                Some(p) => final(self).prev@ == p@ && final(self).next == old(self).next + 1 && final(self).tries
                    == old(self).tries && (if final(self).next < final(self).fields@.len() {
                    r == AutofillStep::Type(final(self).next)
                } else {
                    r == AutofillStep::Done
                }),
                None => final(self).next == old(self).next && final(self).prev == old(self).prev && (if old(self).tries
                    >= max_autofill_tries() {
                    r == AutofillStep::TimedOut && final(self).tries == old(self).tries
                } else {
                    r == AutofillStep::Wait && final(self).tries == old(self).tries + 1
                }),
            },
    {
        match typed {
            Some(p) => {
                assert(self.next < self.fields.len());
                self.prev = p;
                self.next = self.next + 1;
                self.start()
            },
            None => {
                if self.tries >= 900 {
                    AutofillStep::TimedOut
                } else {
                    self.tries = self.tries + 1;
                    AutofillStep::Wait
                }
            },
        }
    }
}

// ------------------------------------------------------------------ forms

/// `i` is the text input `id` labelled `label`, showing `placeholder` when
/// empty, holding `value`, hidden where `password`.
pub open spec fn is_text_input(
    i: Input,
    id: Seq<char>,
    label: Seq<char>,
    placeholder: Seq<char>,
    value: Seq<char>,
    password: bool,
) -> bool {
    &&& i.id@ == id
    &&& i.label@ == label
    &&& i.error is None
    &&& !i.show_error
    &&& i.kind matches InputKind::TextField { placeholder: p, value: v, password: h, .. }
    &&& p@ == placeholder && v@ == value && h == password
}

/// The check of a text input is "required", with `message`.
pub open spec fn requires_with(i: Input, message: Seq<char>) -> bool {
    i.kind matches InputKind::TextField { validate: Some(Validator::Required(m)), .. } && m@ == message
}

/// The check of a text input is `v`, which holds no message.
pub open spec fn checked_by(i: Input, v: Validator) -> bool {
    i.kind matches InputKind::TextField { validate: Some(w), .. } && w == v
}

fn text_input(
    id: &str,
    label: &str,
    placeholder: String,
    value: &str,
    password: bool,
    validate: Validator,
) -> (r: Input)
    ensures
        is_text_input(r, id@, label@, placeholder@, value@, password),
        r.kind matches InputKind::TextField { validate: Some(w), .. } && w == validate,
{
    let kind = InputKind::TextField { placeholder, value: value.to_string(), password, validate: Some(validate) };
    Input::new(id, label, kind)
}

/// The form that adds an account: the instance URL (`https://bitwarden.com`
/// to start with), the account identifier, the client id and the client
/// secret (hidden), each required.
pub fn account_form_inputs() -> (r: Vec<Input>)
    ensures
        r@.len() == 4,
        is_text_input(
            r@[0],
            "instance"@,
            "Instance URL"@,
            "Enter the bitwarden instance URL..."@,
            "https://bitwarden.com"@,
            false,
        ),
        checked_by(r@[0], Validator::InstanceUrl),
        is_text_input(r@[1], "id"@, "Identifier"@, "Enter an account identifier..."@, Seq::empty(), false),
        requires_with(r@[1], "Identifier is required"@),
        is_text_input(r@[2], "client_id"@, "Client ID"@, "Enter client_id..."@, Seq::empty(), false),
        requires_with(r@[2], "Client ID is required"@),
        is_text_input(r@[3], "client_secret"@, "Client Secret"@, "Enter client_secret..."@, Seq::empty(), true),
        requires_with(r@[3], "Client Secret is required"@),
{
    let mut r: Vec<Input> = Vec::new();
    r.push(
        text_input(
            "instance",
            "Instance URL",
            "Enter the bitwarden instance URL...".to_string(),
            "https://bitwarden.com",
            false,
            Validator::InstanceUrl,
        ),
    );
    r.push(
        text_input(
            "id",
            "Identifier",
            "Enter an account identifier...".to_string(),
            "",
            false,
            Validator::Required("Identifier is required".to_string()),
        ),
    );
    r.push(
        text_input(
            "client_id",
            "Client ID",
            "Enter client_id...".to_string(),
            "",
            false,
            Validator::Required("Client ID is required".to_string()),
        ),
    );
    r.push(
        text_input(
            "client_secret",
            "Client Secret",
            "Enter client_secret...".to_string(),
            "",
            true,
            Validator::Required("Client Secret is required".to_string()),
        ),
    );
    proof {
        reveal_strlit("");
        assert(""@ =~= Seq::<char>::empty());
    }
    r
}

/// The form that asks for the master password of account `account_id`: the
/// password (hidden, required) and whether to remember it (`no` to start
/// with, yes or no).
pub fn password_prompt_inputs(account_id: &str) -> (r: Vec<Input>)
    ensures
        r@.len() == 2,
        is_text_input(
            r@[0],
            "password"@,
            "Password"@,
            "Enter password for "@ + account_id@,
            Seq::empty(),
            true,
        ),
        requires_with(r@[0], "Password is required"@),
        is_text_input(r@[1], "remember_password"@, "Remember Password?"@, "(y)es|(n)o"@, "no"@, false),
        checked_by(r@[1], Validator::YesNo),
{
    let mut r: Vec<Input> = Vec::new();
    r.push(
        text_input(
            "password",
            "Password",
            str_concat("Enter password for ", account_id),
            "",
            true,
            Validator::Required("Password is required".to_string()),
        ),
    );
    r.push(
        text_input(
            "remember_password",
            "Remember Password?",
            "(y)es|(n)o".to_string(),
            "no",
            false,
            Validator::YesNo,
        ),
    );
    proof {
        reveal_strlit("");
        assert(""@ =~= Seq::<char>::empty());
    }
    r
}

/// The answer to "Remember Password?" is yes: `y` or `yes` in any case.
pub open spec fn remember_spec(answer: Seq<char>) -> bool {
    lower_case(answer) == "y"@ || lower_case(answer) == "yes"@
}

/// The answer is one the prompt accepts: yes or no, `y`/`yes`/`n`/`no` in
/// any case.
pub open spec fn valid_answer_spec(answer: Seq<char>) -> bool {
    let l = lower_case(answer);
    l == "y"@ || l == "yes"@ || l == "n"@ || l == "no"@
}

/// Whether the answer asks to remember the password.
pub fn remember(answer: &str) -> (r: bool)
    ensures
        r == remember_spec(answer@),
{
    let l = to_lowercase(answer);
    same_str(l.as_str(), "y") || same_str(l.as_str(), "yes")
}

/// The check of the "Remember Password?" answer: `Invalid response` unless
/// it is yes or no.
pub fn validate_answer(answer: &str) -> (r: Option<String>)
    ensures
        valid_answer_spec(answer@) ==> r is None,
        !valid_answer_spec(answer@) ==> (r matches Some(m) && m@ == "Invalid response"@),
{
    let l = to_lowercase(answer);
    let s = l.as_str();
    if same_str(s, "y") || same_str(s, "yes") || same_str(s, "n") || same_str(s, "no") {
        None
    } else {
        Some("Invalid response".to_string())
    }
}

/// The check of a required field: `message` where it is empty.
pub fn validate_required(value: &str, message: &str) -> (r: Option<String>)
    ensures
        value@.len() == 0 ==> (r matches Some(m) && m@ == message@),
        value@.len() > 0 ==> r is None,
{
    if value.unicode_len() == 0 {
        Some(message.to_string())
    } else {
        None
    }
}

/// The check of the instance URL: required, and it must parse as a URL.
pub fn validate_instance(value: &str) -> (r: Option<String>)
    ensures
        value@.len() == 0 ==> (r matches Some(m) && m@ == "Instance URL is required"@),
        value@.len() > 0 && url_parse(value@) is None ==> (r matches Some(m) && m@ == "Invalid URL"@),
        value@.len() > 0 && url_parse(value@) is Some ==> r is None,
{
    if value.unicode_len() == 0 {
        return Some("Instance URL is required".to_string());
    }
    match crate::web::parse_url(value) {
        None => Some("Invalid URL".to_string()),
        Some(_) => None,
    }
}

} // verus!

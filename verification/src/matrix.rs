//! Matrix chats: how consecutive messages of one sender are grouped, what
//! can be done to a message, and where its media is downloaded from.

use vstd::prelude::*;

use crate::bitwarden::cmd_modifiers;
use crate::chars::{lower_case, str_concat, same_str, to_lowercase};
use crate::numbat::has;
use crate::strs::contains;
use crate::state::{Action, Shortcut, action_is};
use crate::web::{parse_url, url_parse};

verus! {

/// Message `i` starts a run of messages by one sender.
pub open spec fn starts_run(senders: Seq<Seq<char>>, i: int) -> bool {
    i == 0 || senders[i] != senders[i - 1]
}

/// Message `i` ends a run of messages by one sender.
pub open spec fn ends_run(senders: Seq<Seq<char>>, i: int) -> bool {
    i == senders.len() - 1 || senders[i + 1] != senders[i]
}

/// Which messages start and end a run of one sender: where the avatar is
/// drawn, and where a bubble's corners are rounded.
pub fn run_flags(senders: &Vec<String>) -> (r: Vec<(bool, bool)>)
    ensures
        r@.len() == senders@.len(),
        forall|i: int|
            0 <= i < r@.len() ==> (#[trigger] r@[i]).0 == starts_run(senders@.map_values(|s: String| s@), i)
                && r@[i].1 == ends_run(senders@.map_values(|s: String| s@), i),
{
    let ghost sv = senders@.map_values(|s: String| s@);
    let n = senders.len();
    let mut r: Vec<(bool, bool)> = Vec::new();
    let mut i: usize = 0;
    while i < n
        invariant
            n == senders@.len(),
            sv == senders@.map_values(|s: String| s@),
            i <= n,
            r@.len() == i,
            forall|k: int| 0 <= k < i ==> (#[trigger] r@[k]).0 == starts_run(sv, k) && r@[k].1 == ends_run(sv, k),
        decreases n - i,
    {
        let first = i == 0 || !same_str(senders[i].as_str(), senders[i - 1].as_str());
        let last = i + 1 == n || !same_str(senders[i + 1].as_str(), senders[i].as_str());
        proof {
            assert(sv[i as int] == senders@[i as int]@);
            if i > 0 {
                assert(sv[i - 1] == senders@[i - 1]@);
            }
            if i + 1 < n {
                assert(sv[i + 1] == senders@[i + 1]@);
            }
        }
        r.push((first, last));
        i = i + 1;
    }
    r
}

/// Whether the sender's avatar is drawn beside a message: on the first of
/// a run, and never on one's own messages.
pub fn shows_avatar(me: bool, first: bool) -> (r: bool)
    ensures
        r == (!me && first),
{
    !me && first
}

/// The actions of a message: Reply, and for one's own messages Edit and
/// Delete (the secondary modifier with `r`, `e` and backspace).
pub fn message_actions(me: bool, macos: bool) -> (r: Vec<Action>)
    ensures
        !me ==> r@.len() == 1,
        me ==> r@.len() == 3,
        action_is(r@[0], "Reply"@, Some(("r"@, cmd_modifiers(macos)))),
        me ==> action_is(r@[1], "Edit"@, Some(("e"@, cmd_modifiers(macos)))),
        me ==> action_is(r@[2], "Delete"@, Some(("backspace"@, cmd_modifiers(macos)))),
{
    let mut r: Vec<Action> = Vec::new();
    r.push(Action::new("Reply", Some(Shortcut::new("r").cmd(macos)), false));
    if me {
        r.push(Action::new("Edit", Some(Shortcut::new("e").cmd(macos)), false));
        r.push(Action::new("Delete", Some(Shortcut::new("backspace").cmd(macos)), false));
    }
    r
}

/// The address media is fetched from: under the homeserver's
/// `_matrix/media/v3/`, a thumbnail of 50 by 50 cropped, or the download.
pub open spec fn media_path_spec(server: Seq<char>, server_name: Seq<char>, media_id: Seq<char>, thumb: bool) -> Seq<char> {
    let (kind, query) = if thumb {
        ("thumbnail"@, "?width=50&height=50&method=crop"@)
    } else {
        ("download"@, ""@)
    };
    server + "_matrix/media/v3/"@ + kind + "/"@ + server_name + "/"@ + media_id + query
}

/// The address of a media item `mxc://<server_name>/<media_id>` on the
/// homeserver `server` (written as its URL).
pub fn media_path(server: &str, server_name: &str, media_id: &str, thumb: bool) -> (r: String)
    ensures
        r@ == media_path_spec(server@, server_name@, media_id@, thumb),
{
    let (kind, query) = if thumb {
        ("thumbnail", "?width=50&height=50&method=crop")
    } else {
        ("download", "")
    };
    let a = str_concat(server, "_matrix/media/v3/");
    let b = str_concat(a.as_str(), kind);
    let c = str_concat(b.as_str(), "/");
    let d = str_concat(c.as_str(), server_name);
    let e = str_concat(d.as_str(), "/");
    let f = str_concat(e.as_str(), media_id);
    let g = str_concat(f.as_str(), query);
    assert(g@ =~= media_path_spec(server@, server_name@, media_id@, thumb));
    g
}

/// The media address, parsed as a URL; `None` where it does not parse.
pub fn mxc_to_http(server: &str, server_name: &str, media_id: &str, thumb: bool) -> (r: Option<String>)
    ensures
        match r {
            Some(u) => url_parse(media_path_spec(server@, server_name@, media_id@, thumb)) matches Some(p) && p.0
                == u@,
            None => url_parse(media_path_spec(server@, server_name@, media_id@, thumb)) is None,
        },
{
    let path = media_path(server, server_name, media_id, thumb);
    match parse_url(path.as_str()) {
        Some(u) => Some(u.serialization),
        None => None,
    }
}

/// A reaction under a message: its emoji, how many reacted with it, and
/// whether one of them is the user.
pub struct Reaction {
    pub emoji: String,
    pub count: u16,
    pub me: bool,
}

/// The reaction `emoji` given by `senders`, the user being `me`: counted
/// as `u16`, wrapping past 65535.
pub fn reaction(emoji: &str, senders: &Vec<String>, me: &str) -> (r: Reaction)
    ensures
        r.emoji@ == emoji@,
        r.count as int == senders@.len() % 65536,
        r.me == exists|i: int| 0 <= i < senders@.len() && (#[trigger] senders@[i])@ == me@,
{
    let mut mine = false;
    let mut i: usize = 0;
    while i < senders.len()
        invariant
            i <= senders@.len(),
            mine == exists|j: int| 0 <= j < i && (#[trigger] senders@[j])@ == me@,
        decreases senders.len() - i,
    {
        if same_str(senders[i].as_str(), me) {
            mine = true;
        }
        i = i + 1;
    }
    let n = senders.len();
    let count: u16 = (n % 65536) as u16;
    Reaction { emoji: emoji.to_string(), count, me: mine }
}

/// A chat message is shown for the search `query`: its text (a text
/// message's) or its sender holds the query, case left aside.
pub open spec fn message_shown_spec(query: Seq<char>, text: Option<Seq<char>>, sender: Seq<char>) -> bool {
    ||| (text matches Some(t) && has(lower_case(t), lower_case(query)))
    ||| has(lower_case(sender), lower_case(query))
}

/// Whether a message with `text` (a text message's; `None` for an image)
/// from `sender` is shown for the search `query`.
pub fn message_shown(query: &str, text: Option<&str>, sender: &str) -> (r: bool)
    ensures
        r == message_shown_spec(
            query@,
            match text {
                Some(t) => Some(t@),
                None => None,
            },
            sender@,
        ),
{
    let q = to_lowercase(query);
    let in_text = match text {
        Some(t) => {
            let l = to_lowercase(t);
            contains(l.as_str(), q.as_str())
        },
        None => false,
    };
    if in_text {
        return true;
    }
    let s = to_lowercase(sender);
    contains(s.as_str(), q.as_str())
}

} // verus!

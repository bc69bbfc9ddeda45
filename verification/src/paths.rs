//! Where the launcher keeps its cache, configuration and data.

use vstd::prelude::*;

use crate::chars::{chars_of, string_of};

verus! {

/// The application's name, the last component of its directories.
pub const NAME: &'static str = "loungy";

/// The operating systems the launcher runs on.
#[derive(Clone, Copy, Debug, PartialEq, Eq, Structural)]
pub enum Platform {
    MacOs,
    Linux,
}

/// `base` joined with `seg` as `PathBuf::push` does on Unix: an absolute
/// `seg` replaces `base`; otherwise a `/` separates them unless `base` is
/// empty or already ends with one.
pub open spec fn join_spec(base: Seq<char>, seg: Seq<char>) -> Seq<char> {
    if seg.len() > 0 && seg[0] == '/' {
        seg
    } else if base.len() > 0 && base.last() != '/' {
        base + seq!['/'] + seg
    } else {
        base + seg
    }
}

/// `PathBuf::from(base).join(seg)` on Unix (see `join_spec`).
pub fn path_join(base: &str, seg: &str) -> (r: String)
    ensures
        r@ == join_spec(base@, seg@),
{
    let b = chars_of(base);
    let s = chars_of(seg);
    if s.len() > 0 && s[0] == '/' {
        return seg.to_owned();
    }
    let mut out = b;
    if out.len() > 0 && out[out.len() - 1] != '/' {
        out.push('/');
    }
    let ghost prefix = out@;
    let mut i: usize = 0;
    while i < s.len()
        invariant
            i <= s@.len(),
            out@ == prefix + s@.take(i as int),
        decreases s.len() - i,
    {
        out.push(s[i]);
        i = i + 1;
        proof {
            assert(out@ =~= prefix + s@.take(i as int));
        }
    }
    proof {
        assert(s@.take(i as int) =~= s@);
        if b@.len() > 0 && b@.last() != '/' {
            assert(prefix =~= b@ + seq!['/']);
        }
    }
    string_of(out.as_slice())
}

/// The launcher's directories.
#[derive(Clone, Debug)]
pub struct Paths {
    pub cache: String,
    pub config: String,
    pub data: String,
}

/// The home directory of `username`.
pub open spec fn home_spec(username: Seq<char>, platform: Platform) -> Seq<char> {
    match platform {
        Platform::MacOs => join_spec("/Users"@, username),
        Platform::Linux => join_spec("/home"@, username),
    }
}

/// The cache directory of `username`.
pub open spec fn cache_spec(username: Seq<char>, platform: Platform) -> Seq<char> {
    let home = home_spec(username, platform);
    match platform {
        Platform::MacOs => join_spec(join_spec(home, "Library/Caches"@), NAME@),
        Platform::Linux => join_spec(join_spec(home, ".cache"@), NAME@),
    }
}

/// The configuration directory of `username`.
pub open spec fn config_spec(username: Seq<char>, platform: Platform) -> Seq<char> {
    join_spec(join_spec(home_spec(username, platform), ".config"@), NAME@)
}

/// The data directory of `username`.
pub open spec fn data_spec(username: Seq<char>, platform: Platform) -> Seq<char> {
    let home = home_spec(username, platform);
    match platform {
        Platform::MacOs => join_spec(join_spec(home, "Library/Application Support"@), NAME@),
        Platform::Linux => join_spec(join_spec(home, ".local/share"@), NAME@),
    }
}

/// `whoami::username`: the current user's name, or `"unknown"` when the
/// system cannot tell.
///
/// Nothing is claimed of the result: it depends on the machine and the user.
#[verifier::external_body]
fn current_username() -> String {
    whoami::username()
}

impl Paths {
    /// The directories of `username` on `platform`.
    pub fn for_user(username: &str, platform: Platform) -> (r: Paths)
        ensures
            r.cache@ == cache_spec(username@, platform),
            r.config@ == config_spec(username@, platform),
            r.data@ == data_spec(username@, platform),
    {
        let home = match platform {
            Platform::MacOs => path_join("/Users", username),
            Platform::Linux => path_join("/home", username),
        };
        let cache = match platform {
            Platform::MacOs => path_join(path_join(home.as_str(), "Library/Caches").as_str(), NAME),
            Platform::Linux => path_join(path_join(home.as_str(), ".cache").as_str(), NAME),
        };
        let config = path_join(path_join(home.as_str(), ".config").as_str(), NAME);
        let data = match platform {
            Platform::MacOs => path_join(path_join(home.as_str(), "Library/Application Support").as_str(), NAME),
            Platform::Linux => path_join(path_join(home.as_str(), ".local/share").as_str(), NAME),
        };
        Paths { cache, config, data }
    }

    /// The current user's directories on `platform`.
    pub fn new(platform: Platform) -> (r: Paths)
        ensures
            exists|user: Seq<char>|
                {
                    &&& r.cache@ == cache_spec(user, platform)
                    &&& r.config@ == config_spec(user, platform)
                    &&& r.data@ == data_spec(user, platform)
                },
    {
        let user = current_username();
        Paths::for_user(user.as_str(), platform)
    }
}

/// The current user's directories on `platform`.
pub fn paths(platform: Platform) -> (r: Paths)
    ensures
        exists|user: Seq<char>|
            {
                &&& r.cache@ == cache_spec(user, platform)
                &&& r.config@ == config_spec(user, platform)
                &&& r.data@ == data_spec(user, platform)
            },
{
    Paths::new(platform)
}

} // verus!

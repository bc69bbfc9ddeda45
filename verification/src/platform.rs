//! Finding installed applications: which directories to search, which files
//! in them are applications, and what a desktop entry says of one.

use vstd::prelude::*;

use crate::chars::{chars_of, push_str, same_str, string_of, views};
use crate::paths::{join_spec, path_join};

verus! {

/// What the launcher knows of an installed application.
#[derive(Debug)]
pub struct AppData {
    /// The bundle identifier (macOS) or desktop entry id (Linux).
    pub id: String,
    pub name: String,
    pub icon_path: String,
    pub keywords: Vec<String>,
    pub tag: String,
}

/// The extension of the path `p` under std's Unix path rules
/// (`Path::extension`): the part of the last component after its last `.`,
/// if that component has a `.` other than a leading one.
pub uninterp spec fn path_extension_spec(p: Seq<char>) -> Option<Seq<char>>;

/// `std::path::Path::extension`, converted to a string.
///
/// Claimed: the result is `path_extension_spec(p)`, a function of the path
/// alone (the launcher builds for macOS and Linux, where `/` is the only
/// separator).
#[verifier::external_body]
fn path_extension(p: &str) -> (r: Option<String>)
    ensures
        match r {
            Some(e) => path_extension_spec(p@) == Some(e@),
            None => path_extension_spec(p@) is None,
        },
{
    std::path::Path::new(p).extension().map(|e| e.to_string_lossy().to_string())
}

/// Whether the extension of `p` is `ext`.
pub fn has_extension(p: &str, ext: &str) -> (r: bool)
    ensures
        r == (path_extension_spec(p@) == Some(ext@)),
{
    match path_extension(p) {
        Some(e) => same_str(e.as_str(), ext),
        None => false,
    }
}

/// The application files among the contents of the application folders
/// (macOS): an `.app` folder is itself an application; a folder with no
/// extension contributes everything in it; a folder with another extension
/// (`Chrome Apps.localized`, say) contributes nothing. `folders` pairs each folder with its
/// entries, `None` when the folder could not be read (it is skipped).
pub fn get_application_files(folders: Vec<(String, Option<Vec<String>>)>) -> (r: Vec<String>)
    ensures
        r@.map_values(|s: String| s@) == app_files_spec(folders@),
{
    let mut files: Vec<String> = Vec::new();
    let mut i: usize = 0;
    while i < folders.len()
        invariant
            i <= folders@.len(),
            files@.map_values(|s: String| s@) == app_files_spec(folders@.take(i as int)),
        decreases folders.len() - i,
    {
        let ghost before = files@;
        proof {
            assert(folders@.take(i + 1).drop_last() =~= folders@.take(i as int));
        }
        match &folders[i].1 {
            None => {},
            Some(entries) => {
                let ext = path_extension(folders[i].0.as_str());
                if let Some(e) = ext {
                    if same_str(e.as_str(), "app") {
                        files.push(folders[i].0.clone());
                        proof {
                            assert(files@.map_values(|s: String| s@) =~= before.map_values(|s: String| s@).push(folders@[i as int].0@));
                        }
                    } else {
                        assert(files@.map_values(|s: String| s@) =~= before.map_values(|s: String| s@) + Seq::<Seq<char>>::empty());
                    }
                } else {
                    let mut j: usize = 0;
                    while j < entries.len()
                        invariant
                            j <= entries@.len(),
                            files@.map_values(|s: String| s@) == before.map_values(|s: String| s@) + entries@.take(j as int).map_values(|s: String| s@),
                        decreases entries.len() - j,
                    {
                        let ghost prev = files@;
                        files.push(entries[j].clone());
                        j = j + 1;
                        proof {
                            assert(views(files@) =~= views(prev).push(entries@[j - 1]@));
                            assert(entries@.take(j as int).map_values(|s: String| s@) =~= entries@.take(j - 1).map_values(|s: String| s@).push(entries@[j - 1]@));
                            assert(files@.map_values(|s: String| s@) =~= before.map_values(|s: String| s@) + entries@.take(j as int).map_values(|s: String| s@));
                        }
                    }
                    proof {
                        assert(entries@.take(j as int) =~= entries@);
                    }
                }
            },
        }
        i = i + 1;
    }
    proof {
        assert(folders@.take(i as int) =~= folders@);
    }
    files
}

/// What a folder contributes to the application files (see
/// `get_application_files`).
pub open spec fn folder_files(folder: (String, Option<Vec<String>>)) -> Seq<Seq<char>> {
    match folder.1 {
        None => Seq::empty(),
        Some(entries) => match path_extension_spec(folder.0@) {
            Some(ext) => if ext == "app"@ {
                seq![folder.0@]
            } else {
                Seq::empty()
            },
            None => entries@.map_values(|s: String| s@),
        },
    }
}

/// The application files of all folders, in order.
pub open spec fn app_files_spec(folders: Seq<(String, Option<Vec<String>>)>) -> Seq<Seq<char>>
    decreases folders.len(),
{
    if folders.len() == 0 {
        Seq::empty()
    } else {
        app_files_spec(folders.drop_last()) + folder_files(folders.last())
    }
}

/// The desktop entries among `entries` (Linux): the paths with extension
/// `desktop`, in order.
pub fn get_desktop_files(entries: Vec<String>) -> (r: Vec<String>)
    ensures
        r@.map_values(|s: String| s@) == entries@.map_values(|s: String| s@).filter(
            |p: Seq<char>| path_extension_spec(p) == Some("desktop"@),
        ),
{
    let ghost keep = |p: Seq<char>| path_extension_spec(p) == Some("desktop"@);
    let ghost ev = entries@.map_values(|s: String| s@);
    let mut files: Vec<String> = Vec::new();
    let mut i: usize = 0;
    while i < entries.len()
        invariant
            i <= entries@.len(),
            ev == entries@.map_values(|s: String| s@),
            keep == (|p: Seq<char>| path_extension_spec(p) == Some("desktop"@)),
            files@.map_values(|s: String| s@) == ev.take(i as int).filter(keep),
        decreases entries.len() - i,
    {
        reveal_with_fuel(Seq::<Seq<char>>::filter, 1);
        let ghost before = files@;
        proof {
            assert(ev.take(i + 1).drop_last() =~= ev.take(i as int));
        }
        if has_extension(entries[i].as_str(), "desktop") {
            files.push(entries[i].clone());
            proof {
                assert(files@.map_values(|s: String| s@) =~= before.map_values(|s: String| s@).push(ev[i as int]));
            }
        }
        i = i + 1;
    }
    proof {
        assert(ev.take(i as int) =~= ev);
    }
    files
}

/// The tag of an application bundle found at `path` (macOS): app
/// extensions are system settings; a path without extension is no
/// application.
pub fn application_tag(path: &str) -> (r: Option<String>)
    ensures
        match path_extension_spec(path@) {
            None => r is None,
            Some(e) => r is Some && r->0@ == if e == "appex"@ {
                "System Setting"@
            } else {
                "Application"@
            },
        },
{
    match path_extension(path) {
        None => None,
        Some(e) => if same_str(e.as_str(), "appex") {
            Some("System Setting".to_owned())
        } else {
            Some("Application".to_owned())
        },
    }
}

/// The folders searched for applications on macOS: the folders inside the
/// user's `Applications` folder (`user_subdirs`), then the system's.
pub fn mac_application_folders(username: &str, user_subdirs: Vec<String>) -> (r: Vec<String>)
    ensures
        ({
            let user_dir = join_spec(join_spec("/Users"@, username@), "Applications"@);
            r@.map_values(|s: String| s@) == user_subdirs@.map_values(|s: String| s@) + seq![
                "/Applications"@,
                "/Applications/Chromium Apps"@,
                "/System/Applications/Utilities"@,
                "/System/Applications"@,
                "/System/Library/CoreServices/Applications"@,
                "/Library/PreferencePanes"@,
                "/System/Library/ExtensionKit/Extensions"@,
                "/System/Library/CoreServices/Finder.app"@,
                user_dir,
                join_spec(user_dir, "Home Manager Apps"@),
                join_spec(user_dir, "Chromium Apps.localized"@),
                join_spec(user_dir, "Chrome Apps.localized"@),
                join_spec(user_dir, "Brave Apps.localized"@),
            ]
        }),
{
    let user_dir = path_join(path_join("/Users", username).as_str(), "Applications");
    let mut dirs = user_subdirs;
    let ghost start = views(dirs@);
    push_str(&mut dirs, "/Applications");
    push_str(&mut dirs, "/Applications/Chromium Apps");
    push_str(&mut dirs, "/System/Applications/Utilities");
    push_str(&mut dirs, "/System/Applications");
    push_str(&mut dirs, "/System/Library/CoreServices/Applications");
    push_str(&mut dirs, "/Library/PreferencePanes");
    push_str(&mut dirs, "/System/Library/ExtensionKit/Extensions");
    push_str(&mut dirs, "/System/Library/CoreServices/Finder.app");
    let a = path_join(user_dir.as_str(), "Home Manager Apps");
    let b = path_join(user_dir.as_str(), "Chromium Apps.localized");
    let c = path_join(user_dir.as_str(), "Chrome Apps.localized");
    let d = path_join(user_dir.as_str(), "Brave Apps.localized");
    push_str(&mut dirs, user_dir.as_str());
    push_str(&mut dirs, a.as_str());
    push_str(&mut dirs, b.as_str());
    push_str(&mut dirs, c.as_str());
    push_str(&mut dirs, d.as_str());
    proof {
        let user_dir_v = join_spec(join_spec("/Users"@, username@), "Applications"@);
        assert(views(dirs@) =~= start + seq![
            "/Applications"@,
            "/Applications/Chromium Apps"@,
            "/System/Applications/Utilities"@,
            "/System/Applications"@,
            "/System/Library/CoreServices/Applications"@,
            "/Library/PreferencePanes"@,
            "/System/Library/ExtensionKit/Extensions"@,
            "/System/Library/CoreServices/Finder.app"@,
            user_dir_v,
            join_spec(user_dir_v, "Home Manager Apps"@),
            join_spec(user_dir_v, "Chromium Apps.localized"@),
            join_spec(user_dir_v, "Chrome Apps.localized"@),
            join_spec(user_dir_v, "Brave Apps.localized"@),
        ]);
    }
    dirs
}

/// `s` cut at every `sep` (`str::split`): the pieces between separators,
/// empty ones included.
pub open spec fn split_spec(s: Seq<char>, sep: char) -> Seq<Seq<char>>
    decreases s.len(),
{
    if s.len() == 0 {
        seq![Seq::empty()]
    } else {
        let rest = split_spec(s.drop_last(), sep);
        if s.last() == sep {
            rest.push(Seq::empty())
        } else {
            rest.update(rest.len() - 1, rest.last().push(s.last()))
        }
    }
}

/// A split always has at least one piece.
pub proof fn lemma_split_nonempty(s: Seq<char>, sep: char)
    ensures
        split_spec(s, sep).len() >= 1,
    decreases s.len(),
{
    if s.len() > 0 {
        lemma_split_nonempty(s.drop_last(), sep);
    }
}

/// `str::split` on a character.
pub fn split_char(s: &str, sep: char) -> (r: Vec<String>)
    ensures
        r@.map_values(|p: String| p@) == split_spec(s@, sep),
{
    let cs = chars_of(s);
    let mut pieces: Vec<String> = Vec::new();
    let mut cur: Vec<char> = Vec::new();
    let mut i: usize = 0;
    while i < cs.len()
        invariant
            i <= cs@.len(),
            cs@ == s@,
            pieces@.map_values(|p: String| p@).push(cur@) == split_spec(cs@.take(i as int), sep),
        decreases cs.len() - i,
    {
        proof {
            assert(cs@.take(i + 1).drop_last() =~= cs@.take(i as int));
            lemma_split_nonempty(cs@.take(i as int), sep);
        }
        let ghost prev = pieces@.map_values(|p: String| p@);
        let ghost prev_cur = cur@;
        if cs[i] == sep {
            let piece = string_of(cur.as_slice());
            pieces.push(piece);
            cur = Vec::new();
            proof {
                assert(pieces@.map_values(|p: String| p@) =~= prev.push(prev_cur));
                assert(pieces@.map_values(|p: String| p@).push(cur@) =~= prev.push(prev_cur).push(Seq::empty()));
            }
        } else {
            cur.push(cs[i]);
            proof {
                let before = prev.push(prev_cur);
                assert(pieces@.map_values(|p: String| p@).push(cur@) =~= before.update(
                    before.len() - 1,
                    before.last().push(cs@[i as int]),
                ));
            }
        }
        i = i + 1;
    }
    proof {
        assert(cs@.take(i as int) =~= cs@);
    }
    let last = string_of(cur.as_slice());
    let ghost prev = pieces@.map_values(|p: String| p@);
    pieces.push(last);
    proof {
        assert(pieces@.map_values(|p: String| p@) =~= prev.push(cur@));
    }
    pieces
}

/// The folders searched for desktop entries on Linux, before keeping those
/// that exist: `$XDG_DATA_HOME` if set, else the home directory joined
/// with `/.local/share` (an absolute path, so the join gives
/// `/.local/share` itself); then the folders of `$XDG_DATA_DIRS` if set, else
/// `/usr/share` and `/usr/local/share`.
pub fn linux_application_folder_candidates(
    username: &str,
    xdg_data_home: Option<String>,
    xdg_data_dirs: Option<String>,
) -> (r: Vec<String>)
    ensures
        ({
            let first: Seq<char> = match xdg_data_home {
                Some(h) => h@,
                None => join_spec(join_spec("/home"@, username@), "/.local/share"@),
            };
            let rest: Seq<Seq<char>> = match xdg_data_dirs {
                Some(d) => split_spec(d@, ':'),
                None => seq!["/usr/share"@, "/usr/local/share"@],
            };
            r@.map_values(|s: String| s@) == seq![first] + rest
        }),
{
    let mut dirs: Vec<String> = Vec::new();
    match xdg_data_home {
        Some(h) => dirs.push(h),
        None => {
            let home = path_join("/home", username);
            dirs.push(path_join(home.as_str(), "/.local/share"));
        },
    }
    let ghost start = dirs@.map_values(|s: String| s@);
    match xdg_data_dirs {
        Some(d) => {
            let parts = split_char(d.as_str(), ':');
            let mut i: usize = 0;
            while i < parts.len()
                invariant
                    i <= parts@.len(),
                    dirs@.map_values(|s: String| s@) == start + parts@.take(i as int).map_values(|s: String| s@),
                decreases parts.len() - i,
            {
                let ghost prev = dirs@;
                dirs.push(parts[i].clone());
                i = i + 1;
                proof {
                    assert(views(dirs@) =~= views(prev).push(parts@[i - 1]@));
                    assert(parts@.take(i as int).map_values(|s: String| s@) =~= parts@.take(i - 1).map_values(|s: String| s@).push(parts@[i - 1]@));
                    assert(dirs@.map_values(|s: String| s@) =~= start + parts@.take(i as int).map_values(|s: String| s@));
                }
            }
            proof {
                assert(parts@.take(i as int) =~= parts@);
            }
        },
        None => {
            dirs.push("/usr/share".to_owned());
            dirs.push("/usr/local/share".to_owned());
            proof {
                assert(dirs@.map_values(|s: String| s@) =~= start + seq!["/usr/share"@, "/usr/local/share"@]);
            }
        },
    }
    dirs
}

/// Why a desktop entry is no launchable application.
#[derive(Clone, Copy, Debug, PartialEq, Eq, Structural)]
pub enum DesktopFileError {
    FileNotFound,
    NoDesktopEntry,
    InvalidFormat,
    HiddenFile,
}

/// An application described by a desktop entry.
#[derive(Clone, Debug)]
pub struct ApplicationDesktopFile {
    pub name: String,
    pub icon: Option<String>,
    pub keywords: Vec<String>,
}

/// The application of a desktop entry's `[Desktop Entry]` section, from its
/// `Name`, `Icon`, `Keywords` and `NoDisplay` attributes (`None` when
/// absent): the name is required; keywords are `;`-separated; `NoDisplay`
/// must read `true` or `false`, and `true` hides the entry.
pub fn desktop_file_from_attrs(
    name: Option<String>,
    icon: Option<String>,
    keywords: Option<String>,
    no_display: Option<String>,
) -> (r: Result<ApplicationDesktopFile, DesktopFileError>)
    ensures
        name is None ==> r == Err::<ApplicationDesktopFile, DesktopFileError>(DesktopFileError::NoDesktopEntry),
        name is Some ==> match no_display {
            Some(v) if v@ != "true"@ && v@ != "false"@ => r == Err::<ApplicationDesktopFile, DesktopFileError>(
                DesktopFileError::InvalidFormat,
            ),
            Some(v) if v@ == "true"@ => r == Err::<ApplicationDesktopFile, DesktopFileError>(
                DesktopFileError::HiddenFile,
            ),
            _ => r matches Ok(f) && f.name@ == name->0@ && f.icon == icon
                && f.keywords@.map_values(|k: String| k@) == match keywords {
                Some(k) => split_spec(k@, ';'),
                None => Seq::<Seq<char>>::empty(),
            },
        },
{
    let name = match name {
        Some(n) => n,
        None => return Err(DesktopFileError::NoDesktopEntry),
    };
    let kw = match &keywords {
        Some(k) => split_char(k.as_str(), ';'),
        None => Vec::new(),
    };
    let hidden = match &no_display {
        None => false,
        Some(v) => {
            if same_str(v.as_str(), "true") {
                true
            } else if same_str(v.as_str(), "false") {
                false
            } else {
                return Err(DesktopFileError::InvalidFormat);
            }
        },
    };
    if hidden {
        return Err(DesktopFileError::HiddenFile);
    }
    Ok(ApplicationDesktopFile { name, icon, keywords: kw })
}

} // verus!

//! File-system paths as values, and where the client keeps its files.

use crate::text::owned;
use vstd::prelude::*;

verus! {

#[verifier::external_type_specification]
#[verifier::external_body]
pub struct ExPathBuf(std::path::PathBuf);

/// The path a string names (`PathBuf::from`), which depends on nothing but
/// the string.
pub uninterp spec fn path_of(s: Seq<char>) -> std::path::PathBuf;

/// `PathBuf::from`: the path spelled by `s`.
#[verifier::external_body]
pub(crate) fn path_from(s: &str) -> (p: std::path::PathBuf)
    ensures
        p == path_of(s@),
{
    std::path::PathBuf::from(s)
}

/// `a` followed by `b` as a path joins them on Unix: `b` relative and `a`
/// either empty, ending in a separator, or getting one.
pub open spec fn joined(a: Seq<char>, b: Seq<char>) -> Seq<char> {
    if a.len() == 0 {
        b
    } else if a.last() == '/' {
        a + b
    } else {
        a + seq!['/'] + b
    }
}

/// Joins a directory and a relative name with `/`.
pub fn join_path(a: &str, b: &str) -> (r: String)
    ensures
        r@ == joined(a@, b@),
{
    let n = a.unicode_len();
    let mut r = owned(a);
    if n > 0 && a.get_char(n - 1) != '/' {
        crate::text::push_char(&mut r, '/');
    }
    r.append(b);
    proof {
        if n > 0 {
            assert(a@.last() == a@[n - 1]);
        }
    }
    assert(r@ =~= joined(a@, b@));
    r
}

/// The download (and default shared) folder: a `Soulseek` folder inside the
/// platform's Downloads folder, or inside `Downloads` under the home folder
/// when the platform names none, or a relative `Downloads/Soulseek` when
/// there is no home either.
pub open spec fn download_dir_of(downloads: Option<Seq<char>>, home: Option<Seq<char>>) -> Seq<char> {
    joined(
        match downloads {
            Some(d) => d,
            None => match home {
                Some(h) => joined(h, "Downloads"@),
                None => "Downloads"@,
            },
        },
        "Soulseek"@,
    )
}

/// The download folder given the platform's Downloads folder and the home
/// folder, each when known.
pub fn download_dir_from(downloads: Option<&str>, home: Option<&str>) -> (r: String)
    ensures
        r@ == download_dir_of(
            match downloads {
                Some(d) => Some(d@),
                None => None,
            },
            match home {
                Some(h) => Some(h@),
                None => None,
            },
        ),
{
    let base = match downloads {
        Some(d) => owned(d),
        None => match home {
            Some(h) => join_path(h, "Downloads"),
            None => owned("Downloads"),
        },
    };
    join_path(base.as_str(), "Soulseek")
}

#[verifier::external_type_specification]
#[verifier::external_body]
pub struct ExUserDirs(directories::UserDirs);

/// `UserDirs::new`: the current user's standard folders, or nothing when no
/// home folder can be found. What comes back depends on the environment, so
/// nothing is claimed of it.
#[verifier::external_body]
fn user_dirs() -> (r: Option<directories::UserDirs>) {
    directories::UserDirs::new()
}

/// `UserDirs::download_dir`, as display text. It reads the environment and
/// the platform's folder settings, so nothing is claimed of it.
#[verifier::external_body]
fn downloads_of(dirs: &directories::UserDirs) -> (r: Option<String>) {
    dirs.download_dir().map(|p| p.display().to_string())
}

/// `UserDirs::home_dir`, as display text. It reads the environment, so
/// nothing is claimed of it.
#[verifier::external_body]
fn home_of(dirs: &directories::UserDirs) -> (r: String) {
    dirs.home_dir().display().to_string()
}

/// The user's home folder, when the platform knows one.
pub fn home_dir() -> (r: Option<String>) {
    match user_dirs() {
        Some(dirs) => Some(home_of(&dirs)),
        None => None,
    }
}

/// The default download (and shared) folder on this machine: a `Soulseek`
/// folder under the platform's Downloads folder, so Soulseek files do not
/// clutter the Downloads root.
pub fn default_download_dir() -> (r: String)
    ensures
        exists|d: Option<Seq<char>>, h: Option<Seq<char>>| r@ == download_dir_of(d, h),
{
    match user_dirs() {
        Some(dirs) => {
            let home = home_of(&dirs);
            match downloads_of(&dirs) {
                Some(d) => download_dir_from(Some(d.as_str()), Some(home.as_str())),
                None => download_dir_from(None, Some(home.as_str())),
            }
        },
        None => download_dir_from(None, None),
    }
}

/// A leading `~` stands for the home folder, alone or before a `/`; without
/// a known home, or without the `~`, the path stays as written.
pub open spec fn expanded(p: Seq<char>, home: Option<Seq<char>>) -> Seq<char> {
    match home {
        Some(h) => if p == seq!['~'] {
            h
        } else if p.len() >= 2 && p[0] == '~' && p[1] == '/' {
            joined(h, p.subrange(2, p.len() as int))
        } else {
            p
        },
        None => p,
    }
}

/// Expands a leading `~` to `home`.
pub fn expand_tilde_with(p: &str, home: Option<&str>) -> (r: String)
    ensures
        r@ == expanded(
            p@,
            match home {
                Some(h) => Some(h@),
                None => None,
            },
        ),
{
    let n = p.unicode_len();
    match home {
        Some(h) => {
            if n == 1 && p.get_char(0) == '~' {
                assert(p@ =~= seq!['~']);
                owned(h)
            } else if n >= 2 && p.get_char(0) == '~' && p.get_char(1) == '/' {
                proof {
                    if p@ == seq!['~'] {
                        assert(p@.len() == 1);
                    }
                }
                join_path(h, p.substring_char(2, n))
            } else {
                proof {
                    if p@ == seq!['~'] {
                        assert(p@[0] == '~');
                    }
                }
                owned(p)
            }
        },
        None => owned(p),
    }
}

} // verus!

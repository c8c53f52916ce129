//! Resolution and validation of a configured shared folder.

use crate::paths::{expand_tilde_with, expanded, home_dir, path_from, path_of};
use crate::text::{owned, trim, trim_str};
use vstd::prelude::*;

verus! {

/// `Path::exists`: whether something is at `path`. It reads the disk, so
/// nothing is claimed of the answer.
#[verifier::external_body]
fn path_exists(path: &std::path::PathBuf) -> (b: bool) {
    path.exists()
}

/// `Path::is_dir`: whether `path` is a folder. It reads the disk, so
/// nothing is claimed of the answer.
#[verifier::external_body]
fn path_is_dir(path: &std::path::PathBuf) -> (b: bool) {
    path.is_dir()
}

/// The verdict on a shared-folder setting, given what the disk says of the
/// `~`-expanded path `path`: the folder when it exists and is a folder, a
/// message naming the path otherwise.
pub fn shared_directory_verdict(path: &str, exists: bool, is_dir: bool) -> (r: Result<
    Option<std::path::PathBuf>,
    String,
>)
    ensures
        !exists ==> (r matches Err(m) && m@ == "shared directory does not exist: "@ + path@),
        exists && !is_dir ==> (r matches Err(m) && m@ == "shared path is not a directory: "@
            + path@),
        exists && is_dir ==> r == Ok::<Option<std::path::PathBuf>, String>(Some(path_of(path@))),
{
    if !exists {
        let mut m = owned("shared directory does not exist: ");
        m.append(path);
        return Err(m);
    }
    if !is_dir {
        let mut m = owned("shared path is not a directory: ");
        m.append(path);
        return Err(m);
    }
    Ok(Some(path_from(path)))
}

/// Validates and normalizes an optional shared-folder setting: nothing is
/// shared when it is unset or blank; otherwise the `~`-expanded path must be
/// an existing folder.
pub fn resolve_shared_directory(raw: Option<&str>) -> (r: Result<Option<std::path::PathBuf>, String>)
    ensures
        match raw {
            None => r == Ok::<Option<std::path::PathBuf>, String>(None),
            Some(s) => if trim(s@).len() == 0 {
                r == Ok::<Option<std::path::PathBuf>, String>(None)
            } else {
                exists|h: Option<Seq<char>>|
                    {
                        let p = #[trigger] expanded(trim(s@), h);
                        ||| r == Ok::<Option<std::path::PathBuf>, String>(Some(path_of(p)))
                        ||| r matches Err(m) && (m@ == "shared directory does not exist: "@ + p
                            || m@ == "shared path is not a directory: "@ + p)
                    }
            },
        },
{
    let raw = match raw {
        Some(s) => s,
        None => return Ok(None),
    };
    let trimmed = trim_str(raw);
    if trimmed.unicode_len() == 0 {
        return Ok(None);
    }
    let home = home_dir();
    let expanded_path = match &home {
        Some(h) => expand_tilde_with(trimmed, Some(h.as_str())),
        None => expand_tilde_with(trimmed, None),
    };
    let path = path_from(expanded_path.as_str());
    let exists = path_exists(&path);
    let is_dir = path_is_dir(&path);
    let r = shared_directory_verdict(expanded_path.as_str(), exists, is_dir);
    proof {
        let h = match home {
            Some(h) => Some(h@),
            None => None,
        };
        assert(expanded_path@ == expanded(trim(raw@), h));
    }
    r
}

} // verus!

//! The files the client keeps between runs (downloads, search queries, open
//! rooms, unread count), each a versioned envelope `{ "version": N, "data":
//! ... }`. State is disposable: a missing, corrupt or newer-than-known file
//! loads as empty rather than failing the start, and an unusable one is set
//! aside next to where it was.

use crate::paths::{join_path, joined, path_from, path_of};
use crate::text::owned;
use vstd::prelude::*;

verus! {

/// The shape every file is written in today.
pub const VERSION: u32 = 0;

/// A download as it is kept between runs.
#[derive(Debug, Clone, PartialEq, Eq)]
pub struct PersistedDownload {
    pub username: String,
    pub filename: String,
    pub size: u64,
    pub download_directory: String,
    pub completed: bool,
}

impl PersistedDownload {
    /// A copy of the download.
    pub fn duplicate(&self) -> (r: PersistedDownload)
        ensures
            r == *self,
    {
        PersistedDownload {
            username: self.username.clone(),
            filename: self.filename.clone(),
            size: self.size,
            download_directory: self.download_directory.clone(),
            completed: self.completed,
        }
    }
}

/// The kinds of state file.
#[derive(Debug, Clone, Copy, PartialEq, Eq, Structural)]
pub enum StateFile {
    Downloads,
    SearchQueries,
    Rooms,
    Messages,
    Unread,
}

/// A state file's name inside the state folder.
pub open spec fn file_name(kind: StateFile) -> Seq<char> {
    match kind {
        StateFile::Downloads => "downloads.json"@,
        StateFile::SearchQueries => "searches.json"@,
        StateFile::Rooms => "rooms.json"@,
        StateFile::Messages => "messages.json"@,
        StateFile::Unread => "unread.json"@,
    }
}

/// Why a state file was set aside instead of read.
#[derive(Debug, Clone, Copy, PartialEq, Eq, Structural)]
pub enum SetAside {
    /// It is not JSON.
    Corrupt,
    /// It says it comes from a newer version, or says no version at all.
    Newer,
    /// Its data does not have the shape expected.
    Unreadable,
}

impl SetAside {
    /// The reason as the warning words it ("State file ... is ...").
    pub fn reason(&self) -> (r: &'static str)
        ensures
            r@ == match self {
                SetAside::Corrupt => "corrupt"@,
                SetAside::Newer => "from a newer version"@,
                SetAside::Unreadable => "unreadable"@,
            },
    {
        match self {
            SetAside::Corrupt => "corrupt",
            SetAside::Newer => "from a newer version",
            SetAside::Unreadable => "unreadable",
        }
    }
}

/// Whether an envelope whose `version` reads as `version` (none when it is
/// missing or not a whole number) can be read by this build: only versions
/// up to `VERSION`.
pub fn readable_version(version: Option<u64>) -> (r: bool)
    ensures
        r == (match version {
            Some(v) => v <= VERSION,
            None => false,
        }),
{
    match version {
        Some(v) => v <= VERSION as u64,
        None => false,
    }
}

/// Where the state files live.
pub struct StateStore {
    pub dir: String,
}

impl StateStore {
    /// A store in the folder `dir`.
    pub fn new(dir: String) -> (r: Self)
        ensures
            r.dir == dir,
    {
        StateStore { dir }
    }

    /// The path of the `kind` file: its name inside the state folder.
    pub fn path(&self, kind: StateFile) -> (r: std::path::PathBuf)
        ensures
            r == path_of(joined(self.dir@, file_name(kind))),
    {
        let name = match kind {
            StateFile::Downloads => "downloads.json",
            StateFile::SearchQueries => "searches.json",
            StateFile::Rooms => "rooms.json",
            StateFile::Messages => "messages.json",
            StateFile::Unread => "unread.json",
        };
        path_from(join_path(self.dir.as_str(), name).as_str())
    }

    /// Where an unusable `kind` file is set aside: its name with `.bak`
    /// after `.json`, in the same folder.
    pub fn set_aside_path(&self, kind: StateFile) -> (r: std::path::PathBuf)
        ensures
            r == path_of(joined(self.dir@, file_name(kind) + ".bak"@)),
    {
        let mut name = owned(
            match kind {
                StateFile::Downloads => "downloads.json",
                StateFile::SearchQueries => "searches.json",
                StateFile::Rooms => "rooms.json",
                StateFile::Messages => "messages.json",
                StateFile::Unread => "unread.json",
            },
        );
        name.append(".bak");
        path_from(join_path(self.dir.as_str(), name.as_str()).as_str())
    }

    /// Where a `kind` file is written before it replaces the old one, so a
    /// crash never leaves a torn file: its name with `.tmp` after `.json`.
    pub fn scratch_path(&self, kind: StateFile) -> (r: std::path::PathBuf)
        ensures
            r == path_of(joined(self.dir@, file_name(kind) + ".tmp"@)),
    {
        let mut name = owned(
            match kind {
                StateFile::Downloads => "downloads.json",
                StateFile::SearchQueries => "searches.json",
                StateFile::Rooms => "rooms.json",
                StateFile::Messages => "messages.json",
                StateFile::Unread => "unread.json",
            },
        );
        name.append(".tmp");
        path_from(join_path(self.dir.as_str(), name.as_str()).as_str())
    }
}

} // verus!

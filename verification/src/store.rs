//! What `shares` and `config` make of the settings file: the folders it
//! shares, the values it holds, and the changes asked of it.

use crate::config::{keys_text, set_effect, text_of, FileConfig};
use crate::directories::resolve_shared_directory;
use crate::output::{CliError, CliResult, ConfigRecord, Exit, ShareRecord};
use crate::remote::Endpoint;
use crate::text::{contains_text, owned, str_eq, trim, trim_str, views};
use crate::transfer::copy_strings;
use vstd::prelude::*;

verus! {

/// Where a `shares` or `config` change is written, and what it starts
/// from.
pub struct Store {
    pub path: Option<std::path::PathBuf>,
    pub config: FileConfig,
}

/// Where a running daemon can be reached, so a change takes effect now
/// rather than at its next start.
pub struct LiveDaemon {
    pub endpoint: Option<Endpoint>,
    pub token: Option<String>,
}

/// Both spellings of the shared folders, flattened: the list, with the
/// single-folder setting first when it is set, not blank, and not already
/// listed.
pub open spec fn spec_share_list(config: FileConfig) -> Seq<Seq<char>> {
    let list = match config.shared_dirs {
        Some(v) => views(v@),
        None => Seq::empty(),
    };
    match config.shared_dir {
        Some(single) => if trim(single@).len() > 0 && !list.contains(single@) {
            seq![single@] + list
        } else {
            list
        },
        None => list,
    }
}

/// Both spellings of the shared folders, flattened.
pub fn share_list(config: &FileConfig) -> (r: Vec<String>)
    ensures
        views(r@) == spec_share_list(*config),
{
    let mut dirs = match &config.shared_dirs {
        Some(v) => copy_strings(v),
        None => Vec::new(),
    };
    assert(views(dirs@) == match config.shared_dirs {
        Some(v) => views(v@),
        None => Seq::<Seq<char>>::empty(),
    });
    match &config.shared_dir {
        Some(single) => {
            if trim_str(single.as_str()).unicode_len() > 0 && !contains_text(
                &dirs,
                single.as_str(),
            ) {
                let ghost before = views(dirs@);
                dirs.insert(0, single.clone());
                assert(views(dirs@) =~= seq![single@] + before);
            }
        },
        None => {},
    }
    dirs
}

/// The folders the settings file asks for, falling back to what this run
/// resolved (command-line folders and the download-folder default).
pub fn configured_shares(config: &FileConfig, resolved: &Vec<String>) -> (r: Vec<String>)
    ensures
        views(r@) == (if spec_share_list(*config).len() == 0 {
            views(resolved@)
        } else {
            spec_share_list(*config)
        }),
{
    let configured = share_list(config);
    if configured.len() == 0 {
        return copy_strings(resolved);
    }
    configured
}

/// What `shares list` prints: each configured folder and whether it can be
/// shared now, or the no-results verdict when nothing is shared.
pub fn shares_list(config: &FileConfig, resolved: &Vec<String>) -> (r: CliResult<Vec<ShareRecord>>)
    ensures
        ({
            let dirs = if spec_share_list(*config).len() == 0 {
                views(resolved@)
            } else {
                spec_share_list(*config)
            };
            match r {
                Ok(v) => dirs.len() > 0 && v@.len() == dirs.len() && forall|k: int|
                    0 <= k < v@.len() ==> (#[trigger] v@[k]).directory@ == dirs[k],
                Err(e) => dirs.len() == 0 && e.exit == Exit::NoResults && e.message@
                    == "no folders are shared"@,
            }
        }),
{
    let dirs = configured_shares(config, resolved);
    if dirs.len() == 0 {
        return Err(CliError::no_results("no folders are shared"));
    }
    let mut out: Vec<ShareRecord> = Vec::new();
    let n = dirs.len();
    let mut i: usize = 0;
    while i < n
        invariant
            n == dirs@.len(),
            i <= n,
            out@.len() == i,
            forall|k: int| 0 <= k < i ==> (#[trigger] out@[k]).directory@ == dirs@[k]@,
        decreases n - i,
    {
        let usable = match resolve_shared_directory(Some(dirs[i].as_str())) {
            Ok(Some(_)) => true,
            _ => false,
        };
        out.push(ShareRecord { directory: dirs[i].clone(), usable });
        i = i + 1;
    }
    assert forall|k: int| 0 <= k < out@.len() implies (#[trigger] out@[k]).directory@ == views(
        dirs@,
    )[k] by {
        assert(views(dirs@)[k] == dirs@[k]@);
    }
    Ok(out)
}

/// The outcome of a change to the shared folders.
pub enum ShareChange {
    /// The folder was already shared: nothing to write.
    Unchanged,
    /// The settings to write, and the folders the session should share.
    Changed(FileConfig, Vec<String>),
}

/// The settings with `dirs` as the shared folders and the single-folder
/// spelling dropped.
pub open spec fn with_shares(config: FileConfig, new: FileConfig, dirs: Seq<Seq<char>>) -> bool {
    &&& new.shared_dir is None
    &&& new.shared_dirs is Some
    &&& views(new.shared_dirs.unwrap()@) == dirs
    &&& new.same_but(config, 5, 6)
}

/// What `shares add` makes of the settings, given the verdict on the folder
/// (`resolve_shared_directory` of it): a refused folder is a usage error
/// with the verdict's message, a blank one a usage error saying so; an
/// already shared folder leaves everything unchanged; otherwise the folder
/// joins the end of the shared list.
pub fn shares_add_with(
    config: FileConfig,
    directory: &str,
    verdict: Result<Option<std::path::PathBuf>, String>,
) -> (r: CliResult<ShareChange>)
    ensures
        verdict matches Err(m) ==> (r matches Err(e) && e.exit == Exit::Usage && e.message@ == m@),
        verdict matches Ok(None) ==> (r matches Err(e) && e.exit == Exit::Usage && e.message@
            == "no folder given"@),
        verdict matches Ok(Some(_)) ==> if spec_share_list(config).contains(directory@) {
            r matches Ok(ShareChange::Unchanged)
        } else {
            r matches Ok(ShareChange::Changed(new, dirs)) && views(dirs@) == spec_share_list(
                config,
            ).push(directory@) && with_shares(config, new, views(dirs@))
        },
{
    match verdict {
        Ok(Some(_)) => {},
        Ok(None) => return Err(CliError::usage("no folder given")),
        Err(e) => return Err(CliError { exit: Exit::Usage, message: e }),
    }
    let mut dirs = share_list(&config);
    if contains_text(&dirs, directory) {
        return Ok(ShareChange::Unchanged);
    }
    dirs.push(owned(directory));
    assert(views(dirs@) =~= spec_share_list(config).push(directory@));
    let mut updated = config;
    updated.shared_dirs = Some(copy_strings(&dirs));
    updated.shared_dir = None;
    Ok(ShareChange::Changed(updated, dirs))
}

/// What `shares add` makes of the settings. A folder that is not there is
/// refused: sharing it would silently index nothing. Whether it is there
/// the disk decides; what follows from the answer is `shares_add_with`.
pub fn shares_add(config: FileConfig, directory: &str) -> (r: CliResult<ShareChange>)
    ensures
        r matches Ok(ShareChange::Unchanged) ==> spec_share_list(config).contains(directory@),
        r matches Ok(ShareChange::Changed(new, dirs)) ==> !spec_share_list(config).contains(
            directory@,
        ) && views(dirs@) == spec_share_list(config).push(directory@) && with_shares(
            config,
            new,
            views(dirs@),
        ),
        r matches Err(e) ==> e.exit == Exit::Usage,
        trim(directory@).len() == 0 ==> (r matches Err(e) && e.message@ == "no folder given"@),
{
    let verdict = resolve_shared_directory(Some(directory));
    shares_add_with(config, directory, verdict)
}

/// What `shares remove` makes of the settings: every entry naming
/// `directory` dropped, or the no-results verdict when none did.
pub fn shares_remove(config: FileConfig, directory: &str) -> (r: CliResult<(FileConfig, Vec<String>)>)
    ensures
        match r {
            Ok((new, dirs)) => spec_share_list(config).contains(directory@) && views(dirs@)
                == spec_share_list(config).filter(|d: Seq<char>| d != directory@) && with_shares(
                config,
                new,
                views(dirs@),
            ),
            Err(e) => !spec_share_list(config).contains(directory@) && e.exit == Exit::NoResults
                && e.message@ == directory@ + " is not in the shared folders"@,
        },
{
    let dirs = share_list(&config);
    let ghost keep = |d: Seq<char>| d != directory@;
    let mut kept: Vec<String> = Vec::new();
    let n = dirs.len();
    let mut i: usize = 0;
    proof {
        reveal(Seq::filter);
    }
    assert(views(dirs@).take(0) =~= Seq::<Seq<char>>::empty());
    while i < n
        invariant
            n == dirs@.len(),
            i <= n,
            keep == (|d: Seq<char>| d != directory@),
            views(kept@) == views(dirs@).take(i as int).filter(keep),
        decreases n - i,
    {
        proof {
            reveal(Seq::filter);
        }
        assert(views(dirs@).take(i + 1).drop_last() =~= views(dirs@).take(i as int));
        assert(views(dirs@)[i as int] == dirs@[i as int]@);
        if !str_eq(dirs[i].as_str(), directory) {
            let ghost before = views(kept@);
            kept.push(dirs[i].clone());
            assert(views(kept@) =~= before.push(dirs@[i as int]@));
        }
        i = i + 1;
    }
    assert(views(dirs@).take(n as int) =~= views(dirs@));
    let ghost all = views(dirs@);
    if kept.len() == n {
        proof {
            if all.contains(directory@) {
                let k = choose|k: int| 0 <= k < all.len() && all[k] == directory@;
                lemma_filter_drops(all, keep, k);
            }
        }
        let mut message = owned(directory);
        message.append(" is not in the shared folders");
        return Err(CliError { exit: Exit::NoResults, message });
    }
    proof {
        if !all.contains(directory@) {
            lemma_filter_keeps_all(all, keep);
        }
    }
    let mut updated = config;
    updated.shared_dirs = Some(copy_strings(&kept));
    updated.shared_dir = None;
    Ok((updated, kept))
}

proof fn lemma_filter_drops<A>(s: Seq<A>, p: spec_fn(A) -> bool, k: int)
    requires
        0 <= k < s.len(),
        !p(s[k]),
    ensures
        s.filter(p).len() < s.len(),
    decreases s.len(),
{
    reveal(Seq::filter);
    s.drop_last().lemma_filter_len(p);
    if k < s.len() - 1 {
        lemma_filter_drops(s.drop_last(), p, k);
    }
}

proof fn lemma_filter_keeps_all<A>(s: Seq<A>, p: spec_fn(A) -> bool)
    requires
        forall|i: int| 0 <= i < s.len() ==> p(#[trigger] s[i]),
    ensures
        s.filter(p) == s,
    decreases s.len(),
{
    reveal(Seq::filter);
    if s.len() > 0 {
        lemma_filter_keeps_all(s.drop_last(), p);
        assert(s.drop_last().push(s.last()) =~= s);
    } else {
        assert(s.filter(p) =~= s);
    }
}

/// What `config path` prints: the settings file in use, or the no-results
/// verdict when running without one.
pub fn config_path(path: Option<&str>) -> (r: CliResult<ConfigRecord>)
    ensures
        match path {
            Some(p) => r matches Ok(c) && c.key@ == "config"@ && text_of(c.value) == Some(p@),
            None => r matches Err(e) && e.exit == Exit::NoResults && e.message@
                == "no config file in use (running with --no-config)"@,
        },
{
    match path {
        Some(p) => Ok(ConfigRecord { key: owned("config"), value: Some(owned(p)) }),
        None => Err(CliError::no_results("no config file in use (running with --no-config)")),
    }
}

/// Whether `key` is one of the settings `config` knows.
pub open spec fn is_known_key(key: Seq<char>) -> bool {
    ||| key == "username"@
    ||| key == "server"@
    ||| key == "listener_port"@
    ||| key == "disable_listener"@
    ||| key == "download_dir"@
    ||| key == "shared_dirs"@
    ||| key == "max_concurrent_downloads"@
    ||| key == "search_timeout"@
    ||| key == "password_cmd"@
    ||| key == "daemon"@
    ||| key == "daemon_token"@
}

fn known_key(key: &str) -> (b: bool)
    ensures
        b == is_known_key(key@),
{
    let mut i: usize = 0;
    let keys = FileConfig::KEYS;
    let mut found = false;
    while i < 11
        invariant
            i <= 11,
            keys@ == FileConfig::KEYS@,
            found ==> is_known_key(key@),
            !found ==> forall|j: int| 0 <= j < i ==> (#[trigger] keys@[j])@ != key@,
        decreases 11 - i,
    {
        if str_eq(keys[i], key) {
            found = true;
        }
        i = i + 1;
    }
    found
}

/// What `config list` prints: every setting, in order, with its value when
/// it is set.
pub fn config_list(config: &FileConfig) -> (r: Vec<ConfigRecord>)
    ensures
        r@.len() == 11,
        forall|k: int|
            0 <= k < 11 ==> (#[trigger] r@[k]).key@ == FileConfig::KEYS@[k]@ && text_of(
                r@[k].value,
            ) == config.spec_get(FileConfig::KEYS@[k]@),
{
    let keys = FileConfig::KEYS;
    let mut out: Vec<ConfigRecord> = Vec::new();
    let mut i: usize = 0;
    while i < 11
        invariant
            i <= 11,
            keys@ == FileConfig::KEYS@,
            out@.len() == i,
            forall|k: int|
                0 <= k < i ==> (#[trigger] out@[k]).key@ == keys@[k]@ && text_of(out@[k].value)
                    == config.spec_get(keys@[k]@),
        decreases 11 - i,
    {
        out.push(ConfigRecord { key: owned(keys[i]), value: config.get(keys[i]) });
        i = i + 1;
    }
    out
}

/// Why `config get` has nothing to print: the key is known but unset, or
/// unknown.
pub fn unknown_or_unset(key: &str) -> (e: CliError)
    ensures
        is_known_key(key@) ==> e.exit == Exit::NoResults && e.message@ == key@ + " is not set"@,
        !is_known_key(key@) ==> e.exit == Exit::Usage && e.message@ == "unknown setting '"@
            + key@ + "' — try one of: "@ + keys_text(),
{
    if known_key(key) {
        let mut message = owned(key);
        message.append(" is not set");
        return CliError { exit: Exit::NoResults, message };
    }
    let mut message = owned("unknown setting '");
    message.append(key);
    message.append("' — try one of: ");
    message.append(
        "username, server, listener_port, disable_listener, download_dir, shared_dirs, max_concurrent_downloads, search_timeout, password_cmd, daemon, daemon_token",
    );
    CliError { exit: Exit::Usage, message }
}

/// What `config get` prints: the value of a known, set key, or why there is
/// none.
pub fn config_get(config: &FileConfig, key: &str) -> (r: CliResult<ConfigRecord>)
    ensures
        match config.spec_get(key@) {
            Some(v) => r matches Ok(c) && c.key@ == key@ && text_of(c.value) == Some(v),
            None => r matches Err(e) && (if is_known_key(key@) {
                e.exit == Exit::NoResults && e.message@ == key@ + " is not set"@
            } else {
                e.exit == Exit::Usage && e.message@ == "unknown setting '"@ + key@
                    + "' — try one of: "@ + keys_text()
            }),
        },
{
    match config.get(key) {
        Some(value) => Ok(ConfigRecord { key: owned(key), value: Some(value) }),
        None => Err(unknown_or_unset(key)),
    }
}

/// What `config set` makes of the settings: the settings to write and the
/// record of the value now held, or a usage error naming what was refused.
pub fn config_set(config: FileConfig, key: &str, value: &str) -> (r: CliResult<
    (FileConfig, ConfigRecord),
>)
    ensures
        match r {
            Ok((new, record)) => set_effect(config, new, key@, value@, Ok(())) && record.key@
                == key@ && text_of(record.value) == new.spec_get(key@),
            Err(e) => e.exit == Exit::Usage && set_effect(
                config,
                config,
                key@,
                value@,
                Err(e.message),
            ),
        },
{
    let mut updated = config;
    match updated.set(key, value) {
        Ok(()) => {
            let current = updated.get(key);
            Ok((updated, ConfigRecord { key: owned(key), value: current }))
        },
        Err(message) => Err(CliError { exit: Exit::Usage, message }),
    }
}

} // verus!

//! Command-line surface: what a parsed command line holds.
//!
//! No subcommand launches the interactive window; any subcommand runs a
//! one-shot operation. The argument grammar itself is declared where the
//! command line is read; this module holds its values and the one piece of
//! argument syntax the library checks, `host:port`.

use crate::paths::ExPathBuf;
use crate::text::{decimal, owned, parse_bounded, parse_uint};
use std::path::PathBuf;
use vstd::prelude::*;

verus! {

/// Upper bound for every wait expressed in seconds: a day.
pub const MAX_WAIT_SECS: u64 = 86400;

/// Global flags and the subcommand.
#[derive(Debug)]
pub struct Cli {
    pub command: Option<Commands>,
    /// Soulseek username.
    pub username: Option<String>,
    /// Password.
    pub password: Option<String>,
    /// Read the password from the first line of stdin.
    pub password_stdin: bool,
    /// Shell command whose stdout is the password.
    pub password_cmd: Option<String>,
    /// Server as host:port.
    pub server: Option<String>,
    /// Do not accept incoming peer connections.
    pub no_listener: bool,
    /// Accept incoming peer connections, overriding the config file.
    pub listener: bool,
    /// Port to accept peer connections on.
    pub listener_port: Option<u16>,
    /// Directory downloads are saved to.
    pub download_dir: Option<String>,
    /// Directories shared with other peers.
    pub shared_dir: Vec<String>,
    /// Maximum simultaneous downloads.
    pub max_concurrent_downloads: Option<usize>,
    /// Seconds a search collects results before reporting.
    pub search_timeout: Option<u64>,
    /// A daemon to control instead of opening a session.
    pub daemon: Option<String>,
    /// The token for a remote daemon.
    pub daemon_token: Option<String>,
    /// Config file to read instead of the default location.
    pub config: Option<PathBuf>,
    /// Ignore the config file entirely.
    pub no_config: bool,
    /// Emit newline-delimited JSON instead of tab-separated text.
    pub json: bool,
    /// Suppress progress and status output on stderr.
    pub quiet: bool,
    /// Log verbosity.
    pub verbose: u8,
    /// Write logs to a file instead of stderr.
    pub log_file: Option<PathBuf>,
}

impl Default for Cli {
    /// No subcommand and no flags.
    fn default() -> (c: Self)
        ensures
            c.command is None,
            c.username is None,
            c.password is None,
            !c.password_stdin,
            c.password_cmd is None,
            c.server is None,
            !c.no_listener,
            !c.listener,
            c.listener_port is None,
            c.download_dir is None,
            c.shared_dir@.len() == 0,
            c.max_concurrent_downloads is None,
            c.search_timeout is None,
            c.daemon is None,
            c.daemon_token is None,
            c.config is None,
            !c.no_config,
            !c.json,
            !c.quiet,
            c.verbose == 0,
            c.log_file is None,
    {
        Cli {
            command: None,
            username: None,
            password: None,
            password_stdin: false,
            password_cmd: None,
            server: None,
            no_listener: false,
            listener: false,
            listener_port: None,
            download_dir: None,
            shared_dir: Vec::new(),
            max_concurrent_downloads: None,
            search_timeout: None,
            daemon: None,
            daemon_token: None,
            config: None,
            no_config: false,
            json: false,
            quiet: false,
            verbose: 0,
            log_file: None,
        }
    }
}

/// The one-shot operations.
#[derive(Debug)]
pub enum Commands {
    /// Search the network and print matching files.
    Search(SearchArgs),
    /// Download files by user and remote path.
    Download(DownloadArgs),
    /// Search, pick automatically, and download in one step.
    Get(GetArgs),
    /// List the files a user shares.
    Browse(BrowseArgs),
    /// Standing searches.
    Wish(WishCommand),
    /// Chat rooms.
    Room(RoomCommand),
    /// Private messages.
    Message(MessageCommand),
    /// Stay online sharing files.
    Serve(ServeArgs),
    /// What the server knows about another user.
    User(UserArgs),
    /// Confirm the credentials and connection work.
    Whoami,
    /// The folders this client shares.
    Shares(SharesCommand),
    /// Read and write the config file.
    Config(ConfigCommand),
    /// Check whether the router opens the listen port.
    Portmap,
    /// Teach a local coding agent this command surface.
    Skills(SkillsCommand),
    /// Tab completion for bash, zsh, and fish.
    Completions(CompletionsCommand),
    /// The resident session.
    Daemon(DaemonArgs),
}

/// Where the resident session listens, and what to ask a running one.
#[derive(Debug)]
pub struct DaemonArgs {
    pub command: Option<DaemonCommand>,
    /// TCP address to accept remote clients on, besides the local socket.
    pub bind: Option<String>,
    /// How many uploads to run at once.
    pub upload_slots: Option<u8>,
}

/// What to ask a running daemon.
#[derive(Debug, Clone, Copy, PartialEq, Eq, Structural)]
pub enum DaemonCommand {
    Token,
    Status,
    Stop,
}

#[derive(Debug)]
pub enum CompletionsCommand {
    /// Write the completion script where the shell looks for it.
    Install(CompletionsArgs),
    /// Remove the completion script again.
    Uninstall(CompletionsArgs),
}

#[derive(Debug)]
pub struct CompletionsArgs {
    /// Shells to act on instead of the ones found on this machine.
    pub shell: Vec<Shell>,
}

/// The shells with a conventional per-user completions location.
#[derive(Copy, Clone, Debug, PartialEq, Eq, Structural)]
pub enum Shell {
    Bash,
    Zsh,
    Fish,
}

#[derive(Debug)]
pub enum SkillsCommand {
    /// Write the skill into every agent found on this machine.
    Install(SkillsArgs),
    /// Remove the skill again.
    Uninstall(SkillsArgs),
    /// Show where the skill goes and what is there now.
    List(SkillsArgs),
}

#[derive(Debug)]
pub struct SkillsArgs {
    /// Skills directories to use instead of the agents found on this machine.
    pub dir: Vec<PathBuf>,
}

#[derive(Debug)]
pub struct ServeArgs {
    /// Seconds to stay online before exiting.
    pub duration: u64,
    /// Stay online until interrupted.
    pub follow: bool,
    /// Also re-run the wishlist.
    pub wishlist: bool,
    /// How many uploads to run at once.
    pub upload_slots: Option<u8>,
}

#[derive(Debug)]
pub struct UserArgs {
    /// The user to ask the server about.
    pub user: String,
    /// Seconds to wait for the server's answer.
    pub timeout: u64,
}

#[derive(Debug)]
pub enum SharesCommand {
    /// List the configured share folders.
    List,
    /// Add a folder to the shares.
    Add { directory: String },
    /// Stop sharing a folder.
    Remove { directory: String },
    /// Re-index the shares.
    Reindex,
    /// Report how many folders and files are indexed.
    Status,
}

#[derive(Debug)]
pub enum ConfigCommand {
    /// Print the path of the config file in use.
    Path,
    /// Print every setting and its effective value.
    List,
    /// Print one setting.
    Get { key: String },
    /// Change one setting in the config file.
    Change { key: String, value: String },
}

/// How to order search results.
#[derive(Copy, Clone, Debug, PartialEq, Eq, Structural)]
pub enum SortKey {
    /// Free slot first, then bitrate, peer speed, and size.
    Best,
    /// Largest file first.
    Size,
    /// Highest bitrate first.
    Bitrate,
    /// Fastest peer first.
    Speed,
}

/// Which of the ranked results `get` should download.
#[derive(Copy, Clone, Debug, PartialEq, Eq, Structural)]
pub enum Pick {
    /// The single best-ranked result.
    Best,
    /// The first result that arrives.
    First,
    /// Every result, subject to the limit.
    All,
}

/// The result restrictions every searching command accepts.
#[derive(Debug, Default, Clone)]
pub struct FilterArgs {
    /// Drop results below this bitrate in kbps.
    pub min_bitrate: Option<u32>,
    /// Keep only peers advertising a free upload slot.
    pub free_slots: bool,
    /// Drop results whose path contains one of these terms.
    pub exclude: Vec<String>,
    /// Keep only these file extensions.
    pub extension: Vec<String>,
    /// Drop results smaller than this many bytes.
    pub min_size: Option<u64>,
    /// Drop results larger than this many bytes.
    pub max_size: Option<u64>,
}

#[derive(Debug)]
pub struct SearchArgs {
    /// What to search for.
    pub query: String,
    pub filter: FilterArgs,
    /// Print at most this many results (0 means all).
    pub limit: usize,
    /// Result order.
    pub sort: SortKey,
}

#[derive(Debug)]
pub struct DownloadArgs {
    /// Peer holding the file.
    pub user: Option<String>,
    /// Remote path exactly as printed by `search` or `browse`.
    pub path: Option<String>,
    /// File size in bytes.
    pub size: Option<u64>,
    /// Read records from stdin.
    pub stdin: bool,
    /// Seconds to wait for each transfer.
    pub timeout: u64,
}

#[derive(Debug)]
pub struct GetArgs {
    /// What to search for.
    pub query: String,
    /// Which results to download.
    pub pick: Pick,
    /// With `All`, download at most this many (0 means all).
    pub limit: usize,
    pub filter: FilterArgs,
    /// Seconds to wait for each transfer.
    pub timeout: u64,
}

#[derive(Debug)]
pub struct BrowseArgs {
    /// User whose shares to list.
    pub user: String,
    /// Seconds to wait for the listing.
    pub timeout: u64,
}

#[derive(Debug)]
pub enum WishCommand {
    /// Store a query and search for it from now on.
    Add { query: String },
    /// Stop looking for a query.
    Remove { query: String },
    /// Print the stored queries.
    List,
    /// Search every stored query once.
    Run(WishRunArgs),
}

#[derive(Debug)]
pub struct WishRunArgs {
    /// Only run this wish instead of all of them.
    pub only: Option<String>,
    pub filter: FilterArgs,
    /// Print at most this many results per wish (0 means all).
    pub limit: usize,
    /// Result order.
    pub sort: SortKey,
}

#[derive(Debug)]
pub enum RoomCommand {
    /// List public rooms and their user counts.
    List { timeout: u64 },
    /// Post a message to a room.
    Say { room: String, message: String },
    /// List who is currently in a room.
    Users { room: String, timeout: u64 },
    /// Stream messages and joins/leaves from a room.
    Listen { room: String, duration: u64, follow: bool },
}

#[derive(Debug)]
pub enum MessageCommand {
    /// Send a private message.
    Send { user: String, message: String },
    /// Stream incoming private messages.
    Read { duration: u64, follow: bool },
}

/// The last `:` of `s`, if any.
pub open spec fn last_colon(s: Seq<char>) -> Option<int>
    decreases s.len(),
{
    if s.len() == 0 {
        None
    } else if s.last() == ':' {
        Some(s.len() - 1)
    } else {
        last_colon(s.drop_last())
    }
}

/// What `parse_server_address` makes of `s`: the host and port, or which of
/// the three problems it has.
pub open spec fn server_parts(s: Seq<char>) -> Result<(Seq<char>, nat), Seq<char>> {
    match last_colon(s) {
        None => Err("Invalid server '"@ + s + "': expected host:port"@),
        Some(i) => if i == 0 {
            Err("Invalid server '"@ + s + "': missing host"@)
        } else {
            match parse_bounded(s.subrange(i + 1, s.len() as int), 65535) {
                Some(port) => Ok((s.subrange(0, i), port)),
                None => Err("Invalid server '"@ + s + "': bad port '"@ + s.subrange(
                    i + 1,
                    s.len() as int,
                ) + "'"@),
            }
        },
    }
}

/// Split `host:port`, the only shape the server setting accepts.
pub fn parse_server_address(server: &str) -> (r: Result<(String, u16), String>)
    ensures
        match (r, server_parts(server@)) {
            (Ok((host, port)), Ok((h, p))) => host@ == h && port == p,
            (Err(e), Err(m)) => e@ == m,
            _ => false,
        },
{
    let n = server.unicode_len();
    let mut i: usize = n;
    assert(server@.take(n as int) =~= server@);
    while i > 0 && server.get_char(i - 1) != ':'
        invariant
            n == server@.len(),
            i <= n,
            last_colon(server@) == last_colon(server@.take(i as int)),
        decreases i,
    {
        assert(server@.take(i as int).drop_last() =~= server@.take(i - 1));
        i = i - 1;
    }
    if i == 0 {
        assert(server@.take(0) =~= Seq::<char>::empty());
        let mut e = owned("Invalid server '");
        e.append(server);
        e.append("': expected host:port");
        return Err(e);
    }
    assert(server@.take(i as int).drop_last() =~= server@.take(i - 1));
    assert(server@.take(i as int).last() == ':');
    let colon = i - 1;
    if colon == 0 {
        let mut e = owned("Invalid server '");
        e.append(server);
        e.append("': missing host");
        return Err(e);
    }
    let host = server.substring_char(0, colon);
    let port_text = server.substring_char(colon + 1, n);
    match parse_uint(port_text, 65535) {
        Some(port) => Ok((owned(host), port as u16)),
        None => {
            let mut e = owned("Invalid server '");
            e.append(server);
            e.append("': bad port '");
            e.append(port_text);
            e.append("'");
            Err(e)
        },
    }
}

} // verus!

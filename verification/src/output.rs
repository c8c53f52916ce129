//! Output discipline for the one-shot commands: exit statuses, the failure
//! type that carries one, and the tab-separated rendering of every record.
//!
//! stdout carries records and nothing else, stderr carries progress, and the
//! process exit code carries the verdict.

use crate::text::{
    decimal, lacks, lemma_decimal_digits, lemma_split_concat, lemma_split_without, owned, push_char,
    push_decimal, split_on,
};
use vstd::prelude::*;

verus! {

/// Documented exit statuses. Anything a wrapper script needs to branch on has
/// its own code; argument errors and configuration problems share `Usage`.
#[derive(Copy, Clone, Debug, PartialEq, Eq, Structural)]
pub enum Exit {
    /// Everything went as asked.
    Success,
    /// Something unexpected went wrong.
    Failure,
    /// Bad arguments, missing credentials, unusable configuration.
    Usage,
    /// Could not reach the server, or the server rejected the login.
    Connection,
    /// The operation succeeded but produced nothing.
    NoResults,
    /// Gave up waiting for a response or a transfer.
    Timeout,
    /// A transfer started but did not complete.
    Transfer,
    /// The server session ended mid-command.
    SessionLost,
}

impl Exit {
    /// The process status of each verdict.
    pub open spec fn spec_code(self) -> u8 {
        match self {
            Exit::Success => 0,
            Exit::Failure => 1,
            Exit::Usage => 2,
            Exit::Connection => 3,
            Exit::NoResults => 4,
            Exit::Timeout => 5,
            Exit::Transfer => 6,
            Exit::SessionLost => 7,
        }
    }

    /// The process exit status.
    pub fn code(self) -> (c: u8)
        ensures
            c == self.spec_code(),
    {
        match self {
            Exit::Success => 0,
            Exit::Failure => 1,
            Exit::Usage => 2,
            Exit::Connection => 3,
            Exit::NoResults => 4,
            Exit::Timeout => 5,
            Exit::Transfer => 6,
            Exit::SessionLost => 7,
        }
    }
}

/// Distinct verdicts have distinct exit statuses, and each status fits the
/// documented range 0..=7.
pub proof fn lemma_exit_codes_distinct(a: Exit, b: Exit)
    ensures
        a.spec_code() == b.spec_code() ==> a == b,
        a.spec_code() <= 7,
{
}

/// A failure carrying the exit code it should produce.
#[derive(Debug, Clone, PartialEq, Eq)]
pub struct CliError {
    pub exit: Exit,
    pub message: String,
}

pub type CliResult<T = ()> = Result<T, CliError>;

impl CliError {
    pub fn new(exit: Exit, message: &str) -> (e: Self)
        ensures
            e.exit == exit,
            e.message@ == message@,
    {
        CliError { exit, message: owned(message) }
    }

    pub fn usage(message: &str) -> (e: Self)
        ensures
            e.exit == Exit::Usage,
            e.message@ == message@,
    {
        Self::new(Exit::Usage, message)
    }

    pub fn connection(message: &str) -> (e: Self)
        ensures
            e.exit == Exit::Connection,
            e.message@ == message@,
    {
        Self::new(Exit::Connection, message)
    }

    pub fn timeout(message: &str) -> (e: Self)
        ensures
            e.exit == Exit::Timeout,
            e.message@ == message@,
    {
        Self::new(Exit::Timeout, message)
    }

    pub fn transfer(message: &str) -> (e: Self)
        ensures
            e.exit == Exit::Transfer,
            e.message@ == message@,
    {
        Self::new(Exit::Transfer, message)
    }

    pub fn no_results(message: &str) -> (e: Self)
        ensures
            e.exit == Exit::NoResults,
            e.message@ == message@,
    {
        Self::new(Exit::NoResults, message)
    }

    pub fn session_lost(message: &str) -> (e: Self)
        ensures
            e.exit == Exit::SessionLost,
            e.message@ == message@,
    {
        Self::new(Exit::SessionLost, message)
    }
}

/// The characters that separate fields and records.
pub open spec fn is_separator(c: char) -> bool {
    c == '\t' || c == '\r' || c == '\n'
}

/// A character with separators turned into spaces.
pub open spec fn clean_char(c: char) -> char {
    if is_separator(c) {
        ' '
    } else {
        c
    }
}

/// Peer-supplied text with every field and record separator turned into a space.
pub open spec fn sanitized(s: Seq<char>) -> Seq<char> {
    s.map_values(|c: char| clean_char(c))
}

/// Appends `s` with its separators turned into spaces.
pub fn push_sanitized(out: &mut String, s: &str)
    ensures
        final(out)@ == old(out)@ + sanitized(s@),
{
    let n = s.unicode_len();
    let mut i: usize = 0;
    let ghost start = out@;
    while i < n
        invariant
            n == s@.len(),
            i <= n,
            out@ == start + sanitized(s@.take(i as int)),
        decreases n - i,
    {
        let c = s.get_char(i);
        if c == '\t' || c == '\r' || c == '\n' {
            push_char(out, ' ');
        } else {
            push_char(out, c);
        }
        assert(sanitized(s@.take(i + 1)) =~= sanitized(s@.take(i as int)).push(clean_char(c)));
        i = i + 1;
    }
    assert(s@.take(n as int) =~= s@);
}

/// Strip the field and record separators out of peer-supplied text so one
/// record always occupies exactly one line with stable columns.
pub fn sanitize(value: &str) -> (r: String)
    ensures
        r@ == sanitized(value@),
{
    let mut r = String::new();
    push_sanitized(&mut r, value);
    assert(r@ =~= sanitized(value@));
    r
}

/// Sanitized text holds no separator and keeps its length.
pub proof fn lemma_sanitized_has_no_separator(s: Seq<char>)
    ensures
        sanitized(s).len() == s.len(),
        forall|i: int| 0 <= i < s.len() ==> !is_separator(#[trigger] sanitized(s)[i]),
        forall|i: int|
            0 <= i < s.len() && !is_separator(s[i]) ==> #[trigger] sanitized(s)[i] == s[i],
{
}

/// A tab.
pub open spec fn tab() -> Seq<char> {
    seq!['\t']
}

/// A number, or `-` when it is unknown.
pub open spec fn opt_decimal(v: Option<nat>) -> Seq<char> {
    match v {
        Some(n) => decimal(n),
        None => seq!['-'],
    }
}

/// The number of an optional `u32`.
pub open spec fn opt_nat(v: Option<u32>) -> Option<nat> {
    match v {
        Some(n) => Some(n as nat),
        None => None,
    }
}

fn push_opt_u32(out: &mut String, v: Option<u32>)
    ensures
        final(out)@ == old(out)@ + opt_decimal(opt_nat(v)),
{
    match v {
        Some(n) => push_decimal(out, n as u64),
        None => {
            push_char(out, '-');
            assert(final(out)@ =~= old(out)@ + seq!['-']);
        },
    }
}

fn push_tab(out: &mut String)
    ensures
        final(out)@ == old(out)@ + tab(),
{
    push_char(out, '\t');
    assert(final(out)@ =~= old(out)@ + tab());
}

fn push_literal(out: &mut String, s: &str)
    ensures
        final(out)@ == old(out)@ + s@,
{
    out.append(s);
}

/// Four fields separated by tabs.
pub open spec fn columns4(a: Seq<char>, b: Seq<char>, c: Seq<char>, d: Seq<char>) -> Seq<char> {
    a + tab() + b + tab() + c + tab() + d
}

/// Three fields separated by tabs.
pub open spec fn columns3(a: Seq<char>, b: Seq<char>, c: Seq<char>) -> Seq<char> {
    a + tab() + b + tab() + c
}

/// Two fields separated by a tab.
pub open spec fn columns2(a: Seq<char>, b: Seq<char>) -> Seq<char> {
    a + tab() + b
}

proof fn lemma_columns4(a: Seq<char>, b: Seq<char>, c: Seq<char>, d: Seq<char>)
    requires
        lacks(a, '\t'),
        lacks(b, '\t'),
        lacks(c, '\t'),
        lacks(d, '\t'),
    ensures
        split_on(columns4(a, b, c, d), '\t') == seq![a, b, c, d],
{
    let t = seq!['\t'];
    lemma_split_concat(c, d, '\t');
    lemma_split_concat(b, c + t + d, '\t');
    lemma_split_concat(a, b + t + (c + t + d), '\t');
    assert(columns4(a, b, c, d) =~= a + t + (b + t + (c + t + d)));
    assert(b + t + (c + t + d) =~= b + t + c + t + d);
    lemma_split_without(a, '\t');
    lemma_split_without(b, '\t');
    lemma_split_without(c, '\t');
    lemma_split_without(d, '\t');
    assert(seq![a] + (seq![b] + (seq![c] + seq![d])) =~= seq![a, b, c, d]);
}

proof fn lemma_columns3(a: Seq<char>, b: Seq<char>, c: Seq<char>)
    requires
        lacks(a, '\t'),
        lacks(b, '\t'),
        lacks(c, '\t'),
    ensures
        split_on(columns3(a, b, c), '\t') == seq![a, b, c],
{
    let t = seq!['\t'];
    lemma_split_concat(b, c, '\t');
    lemma_split_concat(a, b + t + c, '\t');
    assert(columns3(a, b, c) =~= a + t + (b + t + c));
    lemma_split_without(a, '\t');
    lemma_split_without(b, '\t');
    lemma_split_without(c, '\t');
    assert(seq![a] + (seq![b] + seq![c]) =~= seq![a, b, c]);
}

proof fn lemma_sanitized_lacks_tab(s: Seq<char>)
    ensures
        lacks(sanitized(s), '\t'),
{
}

proof fn lemma_opt_decimal_lacks_tab(v: Option<nat>)
    ensures
        lacks(opt_decimal(v), '\t'),
{
    if let Some(n) = v {
        lemma_decimal_digits(n);
    }
}

/// One line of machine-readable output.
pub trait Record {
    /// Tab-separated rendering; fields are free of tabs and newlines.
    fn text(&self) -> String;
}

/// One file found by `search`.
#[derive(Debug, Clone, PartialEq, Eq)]
pub struct SearchRecord {
    pub user: String,
    pub path: String,
    pub size: u64,
    pub bitrate: Option<u32>,
    pub duration: Option<u32>,
    pub free_slot: bool,
    /// The peer's free upload slots as it reported them.
    pub slots: u8,
    pub speed: u32,
}

impl SearchRecord {
    /// `user`, size, bitrate (`-` when unknown), path.
    pub open spec fn spec_text(&self) -> Seq<char> {
        columns4(
            sanitized(self.user@),
            decimal(self.size as nat),
            opt_decimal(opt_nat(self.bitrate)),
            sanitized(self.path@),
        )
    }
}

impl Record for SearchRecord {
    fn text(&self) -> (r: String)
        ensures
            r@ == self.spec_text(),
    {
        let mut r = String::new();
        push_sanitized(&mut r, self.user.as_str());
        push_tab(&mut r);
        push_decimal(&mut r, self.size);
        push_tab(&mut r);
        push_opt_u32(&mut r, self.bitrate);
        push_tab(&mut r);
        push_sanitized(&mut r, self.path.as_str());
        assert(r@ =~= self.spec_text());
        r
    }
}


fn push_word_ok(out: &mut String)
    ensures
        final(out)@ == old(out)@ + seq!['o', 'k'],
{
    push_char(out, 'o');
    push_char(out, 'k');
    assert(final(out)@ =~= old(out)@ + seq!['o', 'k']);
}

/// Whatever a peer puts in a user name or a path, a search line splits at
/// its tabs into exactly its four columns: user, size, bitrate, path.
pub proof fn lemma_search_text_columns(r: SearchRecord)
    ensures
        split_on(r.spec_text(), '\t') == seq![
            sanitized(r.user@),
            decimal(r.size as nat),
            opt_decimal(opt_nat(r.bitrate)),
            sanitized(r.path@),
        ],
{
    lemma_sanitized_lacks_tab(r.user@);
    lemma_sanitized_lacks_tab(r.path@);
    lemma_opt_decimal_lacks_tab(Some(r.size as nat));
    lemma_opt_decimal_lacks_tab(opt_nat(r.bitrate));
    lemma_columns4(
        sanitized(r.user@),
        decimal(r.size as nat),
        opt_decimal(opt_nat(r.bitrate)),
        sanitized(r.path@),
    );
}

/// A file in a peer's share listing.
#[derive(Debug, Clone, PartialEq, Eq)]
pub struct BrowseRecord {
    pub user: String,
    pub directory: String,
    pub path: String,
    pub size: u64,
}

impl BrowseRecord {
    /// `user`, size, path.
    pub open spec fn spec_text(&self) -> Seq<char> {
        columns3(sanitized(self.user@), decimal(self.size as nat), sanitized(self.path@))
    }
}

impl Record for BrowseRecord {
    fn text(&self) -> (r: String)
        ensures
            r@ == self.spec_text(),
    {
        let mut r = String::new();
        push_sanitized(&mut r, self.user.as_str());
        push_tab(&mut r);
        push_decimal(&mut r, self.size);
        push_tab(&mut r);
        push_sanitized(&mut r, self.path.as_str());
        assert(r@ =~= self.spec_text());
        r
    }
}

/// A listing line splits at its tabs into exactly user, size and path.
pub proof fn lemma_browse_text_columns(r: BrowseRecord)
    ensures
        split_on(r.spec_text(), '\t') == seq![
            sanitized(r.user@),
            decimal(r.size as nat),
            sanitized(r.path@),
        ],
{
    lemma_sanitized_lacks_tab(r.user@);
    lemma_sanitized_lacks_tab(r.path@);
    lemma_opt_decimal_lacks_tab(Some(r.size as nat));
    lemma_columns3(sanitized(r.user@), decimal(r.size as nat), sanitized(r.path@));
}

/// The outcome of one transfer.
#[derive(Debug, Clone, PartialEq, Eq)]
pub struct DownloadRecord {
    pub user: String,
    pub path: String,
    pub size: u64,
    pub file: String,
}

impl Record for DownloadRecord {
    /// Just the local path.
    fn text(&self) -> (r: String)
        ensures
            r@ == sanitized(self.file@),
    {
        sanitize(self.file.as_str())
    }
}

/// One public chat room.
#[derive(Debug, Clone, PartialEq, Eq)]
pub struct RoomRecord {
    pub room: String,
    pub users: u32,
}

impl Record for RoomRecord {
    /// The user count, then the room.
    fn text(&self) -> (r: String)
        ensures
            r@ == columns2(decimal(self.users as nat), sanitized(self.room@)),
    {
        let mut r = String::new();
        push_decimal(&mut r, self.users as u64);
        push_tab(&mut r);
        push_sanitized(&mut r, self.room.as_str());
        assert(r@ =~= columns2(decimal(self.users as nat), sanitized(self.room@)));
        r
    }
}

/// Something that happened in a room.
#[derive(Debug, Clone, PartialEq, Eq)]
pub struct RoomEventRecord {
    /// `message`, `join` or `leave`.
    pub kind: &'static str,
    pub room: String,
    pub user: String,
    pub message: String,
}

impl Record for RoomEventRecord {
    /// The kind first, then room, user and message.
    fn text(&self) -> (r: String)
        ensures
            r@ == columns4(
                self.kind@,
                sanitized(self.room@),
                sanitized(self.user@),
                sanitized(self.message@),
            ),
    {
        let mut r = String::new();
        push_literal(&mut r, self.kind);
        push_tab(&mut r);
        push_sanitized(&mut r, self.room.as_str());
        push_tab(&mut r);
        push_sanitized(&mut r, self.user.as_str());
        push_tab(&mut r);
        push_sanitized(&mut r, self.message.as_str());
        assert(r@ =~= columns4(
            self.kind@,
            sanitized(self.room@),
            sanitized(self.user@),
            sanitized(self.message@),
        ));
        r
    }
}

/// One incoming private message.
#[derive(Debug, Clone, PartialEq, Eq)]
pub struct PrivateMessageRecord {
    pub timestamp: u32,
    pub user: String,
    pub message: String,
}

impl Record for PrivateMessageRecord {
    fn text(&self) -> (r: String)
        ensures
            r@ == columns3(
                decimal(self.timestamp as nat),
                sanitized(self.user@),
                sanitized(self.message@),
            ),
    {
        let mut r = String::new();
        push_decimal(&mut r, self.timestamp as u64);
        push_tab(&mut r);
        push_sanitized(&mut r, self.user.as_str());
        push_tab(&mut r);
        push_sanitized(&mut r, self.message.as_str());
        assert(r@ =~= columns3(
            decimal(self.timestamp as nat),
            sanitized(self.user@),
            sanitized(self.message@),
        ));
        r
    }
}

/// Who we are and what this session offers the network.
#[derive(Debug, Clone, PartialEq, Eq)]
pub struct WhoamiRecord {
    pub user: String,
    pub server: String,
    pub listening: bool,
    pub listen_port: u16,
    pub shared_folders: u32,
    pub shared_files: u32,
    pub download_dir: String,
    /// Seconds of privileges left, or `None` when the server did not answer.
    pub privilege_seconds: Option<u32>,
}

impl Record for WhoamiRecord {
    fn text(&self) -> (r: String)
        ensures
            r@ == columns4(
                sanitized(self.user@),
                sanitized(self.server@),
                decimal(self.shared_folders as nat),
                decimal(self.shared_files as nat),
            ),
    {
        let mut r = String::new();
        push_sanitized(&mut r, self.user.as_str());
        push_tab(&mut r);
        push_sanitized(&mut r, self.server.as_str());
        push_tab(&mut r);
        push_decimal(&mut r, self.shared_folders as u64);
        push_tab(&mut r);
        push_decimal(&mut r, self.shared_files as u64);
        assert(r@ =~= columns4(
            sanitized(self.user@),
            sanitized(self.server@),
            decimal(self.shared_folders as nat),
            decimal(self.shared_files as nat),
        ));
        r
    }
}

/// What the server knows about another user; each field is `None` while the
/// server has not answered that half.
#[derive(Debug, Clone, PartialEq, Eq)]
pub struct UserRecord {
    pub user: String,
    /// `online`, `away`, or `offline`.
    pub status: Option<String>,
    pub privileged: Option<bool>,
    pub average_speed: Option<u32>,
    pub shared_files: Option<u32>,
    pub shared_folders: Option<u32>,
}

/// A known text, or `-`.
pub open spec fn opt_text(v: Option<String>) -> Seq<char> {
    match v {
        Some(s) => s@,
        None => seq!['-'],
    }
}

impl Record for UserRecord {
    fn text(&self) -> (r: String)
        ensures
            r@ == columns4(
                sanitized(self.user@),
                opt_text(self.status),
                opt_decimal(opt_nat(self.average_speed)),
                opt_decimal(opt_nat(self.shared_files)),
            ),
    {
        let mut r = String::new();
        push_sanitized(&mut r, self.user.as_str());
        push_tab(&mut r);
        match &self.status {
            Some(status) => push_literal(&mut r, status.as_str()),
            None => push_char(&mut r, '-'),
        }
        push_tab(&mut r);
        push_opt_u32(&mut r, self.average_speed);
        push_tab(&mut r);
        push_opt_u32(&mut r, self.shared_files);
        assert(r@ =~= columns4(
            sanitized(self.user@),
            opt_text(self.status),
            opt_decimal(opt_nat(self.average_speed)),
            opt_decimal(opt_nat(self.shared_files)),
        ));
        r
    }
}

/// One member of a chat room.
#[derive(Debug, Clone, PartialEq, Eq)]
pub struct RoomMemberRecord {
    pub room: String,
    pub user: String,
}

impl Record for RoomMemberRecord {
    fn text(&self) -> (r: String)
        ensures
            r@ == sanitized(self.user@),
    {
        sanitize(self.user.as_str())
    }
}

/// One configured share folder.
#[derive(Debug, Clone, PartialEq, Eq)]
pub struct ShareRecord {
    pub directory: String,
    /// False when the folder is configured but missing on disk.
    pub usable: bool,
}

/// `ok` or `missing`.
pub open spec fn usable_word(usable: bool) -> Seq<char> {
    if usable {
        seq!['o', 'k']
    } else {
        seq!['m', 'i', 's', 's', 'i', 'n', 'g']
    }
}

impl Record for ShareRecord {
    fn text(&self) -> (r: String)
        ensures
            r@ == columns2(usable_word(self.usable), sanitized(self.directory@)),
    {
        let mut r = String::new();
        if self.usable {
            push_word_ok(&mut r);
        } else {
            proof {
                reveal_strlit("missing");
            }
            push_literal(&mut r, "missing");
        }
        push_tab(&mut r);
        push_sanitized(&mut r, self.directory.as_str());
        assert(r@ =~= columns2(usable_word(self.usable), sanitized(self.directory@)));
        r
    }
}

/// What the share index currently holds.
#[derive(Debug, Clone, PartialEq, Eq)]
pub struct ShareStatusRecord {
    pub folders: u32,
    pub files: u32,
    pub directories: Vec<String>,
}

impl Record for ShareStatusRecord {
    fn text(&self) -> (r: String)
        ensures
            r@ == columns2(decimal(self.folders as nat), decimal(self.files as nat)),
    {
        let mut r = String::new();
        push_decimal(&mut r, self.folders as u64);
        push_tab(&mut r);
        push_decimal(&mut r, self.files as u64);
        assert(r@ =~= columns2(decimal(self.folders as nat), decimal(self.files as nat)));
        r
    }
}

/// One standing search on the wishlist.
#[derive(Debug, Clone, PartialEq, Eq)]
pub struct WishRecord {
    pub query: String,
}

impl Record for WishRecord {
    fn text(&self) -> (r: String)
        ensures
            r@ == sanitized(self.query@),
    {
        sanitize(self.query.as_str())
    }
}

/// One configuration setting.
#[derive(Debug, Clone, PartialEq, Eq)]
pub struct ConfigRecord {
    pub key: String,
    pub value: Option<String>,
}

impl ConfigRecord {
    /// The key, a tab, and the value when there is one.
    pub open spec fn spec_text(&self) -> Seq<char> {
        match self.value {
            Some(v) => columns2(sanitized(self.key@), sanitized(v@)),
            None => sanitized(self.key@) + tab(),
        }
    }
}

impl Record for ConfigRecord {
    fn text(&self) -> (r: String)
        ensures
            r@ == self.spec_text(),
    {
        let mut r = String::new();
        push_sanitized(&mut r, self.key.as_str());
        push_tab(&mut r);
        match &self.value {
            Some(value) => push_sanitized(&mut r, value.as_str()),
            None => {},
        }
        assert(r@ =~= self.spec_text());
        r
    }
}

/// What happened to one agent's copy of the skill.
#[derive(Debug, Clone, PartialEq, Eq)]
pub struct SkillRecord {
    /// The agent the directory belongs to, or `custom`.
    pub agent: String,
    pub path: String,
    /// `installed`, `unchanged`, `outdated`, `removed`, or `absent`.
    pub action: String,
}

impl Record for SkillRecord {
    fn text(&self) -> (r: String)
        ensures
            r@ == columns3(sanitized(self.action@), sanitized(self.agent@), sanitized(self.path@)),
    {
        let mut r = String::new();
        push_sanitized(&mut r, self.action.as_str());
        push_tab(&mut r);
        push_sanitized(&mut r, self.agent.as_str());
        push_tab(&mut r);
        push_sanitized(&mut r, self.path.as_str());
        assert(r@ =~= columns3(
            sanitized(self.action@),
            sanitized(self.agent@),
            sanitized(self.path@),
        ));
        r
    }
}

/// What happened to one shell's completion script.
#[derive(Debug, Clone, PartialEq, Eq)]
pub struct CompletionRecord {
    /// `bash`, `zsh`, or `fish`.
    pub shell: String,
    pub path: String,
    /// `installed`, `unchanged`, `removed`, or `absent`.
    pub action: String,
}

impl Record for CompletionRecord {
    fn text(&self) -> (r: String)
        ensures
            r@ == columns3(sanitized(self.action@), sanitized(self.shell@), sanitized(self.path@)),
    {
        let mut r = String::new();
        push_sanitized(&mut r, self.action.as_str());
        push_tab(&mut r);
        push_sanitized(&mut r, self.shell.as_str());
        push_tab(&mut r);
        push_sanitized(&mut r, self.path.as_str());
        assert(r@ =~= columns3(
            sanitized(self.action@),
            sanitized(self.shell@),
            sanitized(self.path@),
        ));
        r
    }
}

/// The token a remote client authenticates with.
#[derive(Debug, Clone, PartialEq, Eq)]
pub struct TokenRecord {
    pub token: String,
}

impl Record for TokenRecord {
    fn text(&self) -> (r: String)
        ensures
            r@ == sanitized(self.token@),
    {
        sanitize(self.token.as_str())
    }
}

/// What a running daemon is and what its session is doing.
#[derive(Debug, Clone, PartialEq, Eq)]
pub struct DaemonStatusRecord {
    pub user: String,
    pub server: String,
    pub version: String,
    pub protocol: u32,
    pub listening: bool,
    pub listen_port: u16,
    pub shared_folders: u32,
    pub shared_files: u32,
    pub download_dir: String,
    /// `displaced` or `disconnected` when the server session has ended.
    pub session_loss: Option<String>,
    /// Control connections currently attached.
    pub clients: usize,
    pub uptime_secs: u64,
}

impl Record for DaemonStatusRecord {
    fn text(&self) -> (r: String)
        ensures
            r@ == columns4(
                sanitized(self.user@),
                sanitized(self.server@),
                decimal(self.clients as nat),
                decimal(self.uptime_secs as nat),
            ),
    {
        let mut r = String::new();
        push_sanitized(&mut r, self.user.as_str());
        push_tab(&mut r);
        push_sanitized(&mut r, self.server.as_str());
        push_tab(&mut r);
        push_decimal(&mut r, self.clients as u64);
        push_tab(&mut r);
        push_decimal(&mut r, self.uptime_secs);
        assert(r@ =~= columns4(
            sanitized(self.user@),
            sanitized(self.server@),
            decimal(self.clients as nat),
            decimal(self.uptime_secs as nat),
        ));
        r
    }
}

/// The result of probing automatic port mapping.
#[derive(Debug, Clone, PartialEq, Eq)]
pub struct PortmapRecord {
    pub ok: bool,
    pub backend: String,
    pub external: Option<String>,
    pub port: u16,
}

/// `ok` or `failed`.
pub open spec fn outcome_word(ok: bool) -> Seq<char> {
    if ok {
        seq!['o', 'k']
    } else {
        seq!['f', 'a', 'i', 'l', 'e', 'd']
    }
}

impl Record for PortmapRecord {
    fn text(&self) -> (r: String)
        ensures
            r@ == columns3(outcome_word(self.ok), sanitized(self.backend@), opt_text(self.external)),
    {
        let mut r = String::new();
        if self.ok {
            push_word_ok(&mut r);
        } else {
            proof {
                reveal_strlit("failed");
            }
            push_literal(&mut r, "failed");
        }
        push_tab(&mut r);
        push_sanitized(&mut r, self.backend.as_str());
        push_tab(&mut r);
        match &self.external {
            Some(address) => push_literal(&mut r, address.as_str()),
            None => push_char(&mut r, '-'),
        }
        assert(r@ =~= columns3(
            outcome_word(self.ok),
            sanitized(self.backend@),
            opt_text(self.external),
        ));
        r
    }
}


/// Where records go and whether progress is shown.
#[derive(Clone, Debug)]
pub struct Out {
    pub json: bool,
    pub quiet: bool,
    /// Whether stderr lines may carry colour escapes.
    pub color: bool,
}

impl Out {
    /// An output with the given format, verbosity and colour.
    pub fn styled(json: bool, quiet: bool, color: bool) -> (o: Out)
        ensures
            o.json == json,
            o.quiet == quiet,
            o.color == color,
    {
        Out { json, quiet, color }
    }

    /// Progress is shown unless `--quiet`.
    pub fn shows_status(&self) -> (b: bool)
        ensures
            b == !self.quiet,
    {
        !self.quiet
    }

    /// The stderr line of a warning; shown even when quiet.
    pub fn warning_line(&self, message: &str) -> (r: String)
        ensures
            r@ == (if self.color {
                "\x1b[33mwarning:\x1b[0m "@
            } else {
                "warning: "@
            }) + message@,
    {
        let mut r = if self.color {
            owned("\x1b[33mwarning:\x1b[0m ")
        } else {
            owned("warning: ")
        };
        r.append(message);
        r
    }

    /// The stderr line of an error.
    pub fn error_line(&self, message: &str) -> (r: String)
        ensures
            r@ == (if self.color {
                "\x1b[31merror:\x1b[0m "@
            } else {
                "error: "@
            }) + message@,
    {
        let mut r = if self.color {
            owned("\x1b[31merror:\x1b[0m ")
        } else {
            owned("error: ")
        };
        r.append(message);
        r
    }
}

} // verus!

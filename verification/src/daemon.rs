//! The resident service's own rules: where its socket and token live, how a
//! token is minted and checked, and which peers it is still waiting on.

use crate::paths::{join_path, joined, path_from, path_of};
use crate::proto::{ChatMessageDto, UserMessageDto};
use crate::state::PersistedDownload;
use crate::text::{decimal, decimal_string, owned, str_eq, trim, trim_str, views};
use vstd::prelude::*;

verus! {

/// The control socket's file name inside the state folder.
pub const SOCKET_NAME: &'static str = "daemon.sock";

/// The token file's name inside the state folder.
pub const TOKEN_NAME: &'static str = "daemon.token";

/// The control socket inside `state_dir`, when there is a state folder.
pub fn socket_path(state_dir: Option<&str>) -> (r: Option<std::path::PathBuf>)
    ensures
        match state_dir {
            Some(d) => r == Some(path_of(joined(d@, "daemon.sock"@))),
            None => r is None,
        },
{
    match state_dir {
        Some(d) => {
            let p = join_path(d, SOCKET_NAME);
            Some(path_from(p.as_str()))
        },
        None => None,
    }
}

/// The token file inside `state_dir`, when there is a state folder.
pub fn token_path(state_dir: Option<&str>) -> (r: Option<std::path::PathBuf>)
    ensures
        match state_dir {
            Some(d) => r == Some(path_of(joined(d@, "daemon.token"@))),
            None => r is None,
        },
{
    match state_dir {
        Some(d) => {
            let p = join_path(d, TOKEN_NAME);
            Some(path_from(p.as_str()))
        },
        None => None,
    }
}

/// The token a token file holds: its text without surrounding white space,
/// or nothing when that is empty.
pub fn stored_token(contents: &str) -> (r: Option<String>)
    ensures
        match r {
            Some(t) => t@ == trim(contents@) && t@.len() > 0,
            None => trim(contents@).len() == 0,
        },
{
    let t = trim_str(contents);
    if t.unicode_len() == 0 {
        None
    } else {
        Some(owned(t))
    }
}

/// The lowercase hexadecimal digit of `n` (below 16).
pub open spec fn hex_digit(n: int) -> char {
    if n < 10 {
        (n + 48) as char
    } else {
        (n - 10 + 97) as char
    }
}

/// Two lowercase hexadecimal digits per byte, in order.
pub open spec fn hex(bytes: Seq<u8>) -> Seq<char>
    decreases bytes.len(),
{
    if bytes.len() == 0 {
        Seq::empty()
    } else {
        hex(bytes.drop_last()) + seq![
            hex_digit(bytes.last() as int / 16),
            hex_digit(bytes.last() as int % 16),
        ]
    }
}

fn hex_char(n: u8) -> (c: char)
    requires
        n < 16,
    ensures
        c == hex_digit(n as int),
{
    if n < 10 {
        (n + 48) as char
    } else {
        (n - 10 + 97) as char
    }
}

/// Encodes bytes as lowercase hexadecimal text.
pub fn hex_encode(bytes: &Vec<u8>) -> (r: String)
    ensures
        r@ == hex(bytes@),
        r@.len() == 2 * bytes@.len(),
{
    let mut r = String::new();
    let n = bytes.len();
    let mut i: usize = 0;
    assert(bytes@.take(0) =~= Seq::<u8>::empty());
    while i < n
        invariant
            n == bytes@.len(),
            i <= n,
            r@ == hex(bytes@.take(i as int)),
            r@.len() == 2 * i,
        decreases n - i,
    {
        let b = bytes[i];
        assert(bytes@.take(i + 1).drop_last() =~= bytes@.take(i as int));
        crate::text::push_char(&mut r, hex_char(b / 16));
        crate::text::push_char(&mut r, hex_char(b % 16));
        assert(r@ =~= hex(bytes@.take(i + 1)));
        i = i + 1;
    }
    assert(bytes@.take(n as int) =~= bytes@);
    r
}

#[verifier::external_type_specification]
#[verifier::external_body]
pub struct ExRandomError(getrandom::Error);

/// `getrandom::fill`: overwrites `bytes` with bytes from the operating
/// system's random source, or fails with the source's error. The bytes that
/// come back are chance; only the length is claimed to stay.
#[verifier::external_body]
fn fill_random(bytes: &mut Vec<u8>) -> (r: Result<(), getrandom::Error>)
    ensures
        final(bytes)@.len() == old(bytes)@.len(),
{
    getrandom::fill(bytes.as_mut_slice())
}

/// A fresh token: 256 bits from the operating system, hex-encoded, or
/// nothing when the system has no randomness to give.
pub fn mint_token() -> (r: Option<String>)
    ensures
        r matches Some(t) ==> t@.len() == 64 && exists|b: Seq<u8>| b.len() == 32 && t@ == hex(b),
{
    let mut bytes: Vec<u8> = vec![0u8; 32];
    match fill_random(&mut bytes) {
        Ok(()) => {
            let t = hex_encode(&bytes);
            Some(t)
        },
        Err(_) => None,
    }
}

proof fn lemma_or_xor_zero(d: u8, a: u8, b: u8)
    ensures
        (d | (a ^ b)) == 0u8 <==> (d == 0u8 && a == b),
{
    assert((d | (a ^ b)) == 0u8 <==> (d == 0u8 && a == b)) by (bit_vector);
}

/// Compares two tokens without leaking, through timing, where they first
/// differ: every byte pair is looked at whatever came before.
pub fn constant_time_eq(left: &str, right: &str) -> (r: bool)
    ensures
        r == (left@ == right@),
{
    let a = left.as_bytes_vec();
    let b = right.as_bytes_vec();
    proof {
        vstd::utf8::encode_utf8_decode_utf8(left@);
        vstd::utf8::encode_utf8_decode_utf8(right@);
    }
    if a.len() != b.len() {
        return false;
    }
    let n = a.len();
    let mut difference: u8 = 0;
    let mut i: usize = 0;
    assert(a@.take(0) =~= b@.take(0));
    while i < n
        invariant
            n == a@.len(),
            n == b@.len(),
            i <= n,
            (difference == 0) == (a@.take(i as int) == b@.take(i as int)),
        decreases n - i,
    {
        proof {
            lemma_or_xor_zero(difference, a@[i as int], b@[i as int]);
            assert(a@.take(i + 1) =~= a@.take(i as int).push(a@[i as int]));
            assert(b@.take(i + 1) =~= b@.take(i as int).push(b@[i as int]));
            if a@.take(i + 1) == b@.take(i + 1) {
                assert(a@.take(i + 1)[i as int] == b@.take(i + 1)[i as int]);
                assert(a@.take(i as int) =~= a@.take(i + 1).drop_last());
                assert(b@.take(i as int) =~= b@.take(i + 1).drop_last());
            }
        }
        difference = difference | (a[i] ^ b[i]);
        i = i + 1;
    }
    assert(a@.take(n as int) =~= a@);
    assert(b@.take(n as int) =~= b@);
    difference == 0
}

/// Whether a connection may use the daemon. A Unix socket has already proved
/// the caller is this user, so a token is optional there and mandatory
/// everywhere else; a token that is offered is always checked.
pub fn accepts(token: &str, trusted: bool, offered: Option<&str>) -> (r: bool)
    ensures
        r == match offered {
            Some(t) => t@ == token@,
            None => trusted,
        },
{
    match offered {
        Some(t) => constant_time_eq(t, token),
        None => trusted,
    }
}

/// A wrong token is refused on every transport, a right one accepted on
/// every transport, and only a trusted transport lets a caller in without
/// one.
pub proof fn lemma_token_rules(token: Seq<char>, offered: Seq<char>, trusted: bool)
    ensures
        offered != token ==> !(match Some(offered) {
            Some(t) => t == token,
            None => trusted,
        }),
        (match Option::<Seq<char>>::None {
            Some(t) => t == token,
            None => trusted,
        }) == trusted,
{
}

/// Peers asked for a listing that has not arrived yet, each named once.
#[derive(Debug)]
pub struct PendingBrowses {
    names: Vec<String>,
}

impl Clone for PendingBrowses {
    /// The same peers, in the same order.
    fn clone(&self) -> (r: Self)
        ensures
            r.waiting() == self.waiting(),
    {
        proof {
            use_type_invariant(self);
        }
        PendingBrowses { names: self.snapshot() }
    }
}

impl Default for PendingBrowses {
    /// Nothing awaited yet.
    fn default() -> (p: Self)
        ensures
            p.waiting() == Seq::<Seq<char>>::empty(),
    {
        PendingBrowses::new()
    }
}

/// No name occurs twice.
pub open spec fn distinct_names(s: Seq<Seq<char>>) -> bool {
    forall|i: int, j: int| 0 <= i < j < s.len() ==> s[i] != s[j]
}

/// A subsequence of names where no name occurs twice has no name twice,
/// and holds only names of the whole.
proof fn lemma_filter_keeps_distinct(s: Seq<Seq<char>>, keep: spec_fn(Seq<char>) -> bool)
    requires
        distinct_names(s),
    ensures
        distinct_names(s.filter(keep)),
        forall|x: Seq<char>| s.filter(keep).contains(x) ==> s.contains(x),
    decreases s.len(),
{
    reveal(Seq::filter);
    if s.len() > 0 {
        let dl = s.drop_last();
        lemma_filter_keeps_distinct(dl, keep);
        let f = dl.filter(keep);
        if keep(s.last()) {
            assert(!dl.contains(s.last())) by {
                if dl.contains(s.last()) {
                    let k = choose|k: int| 0 <= k < dl.len() && dl[k] == s.last();
                    assert(s[k] == s[s.len() - 1]);
                }
            }
            assert(!f.contains(s.last()));
            assert forall|x: Seq<char>| f.push(s.last()).contains(x) implies s.contains(x) by {
                let k = choose|k: int| 0 <= k < f.push(s.last()).len() && f.push(s.last())[k] == x;
                if k < f.len() {
                    assert(f[k] == x);
                    assert(f.contains(x));
                    assert(dl.contains(x));
                    let j = choose|j: int| 0 <= j < dl.len() && dl[j] == x;
                    assert(s[j] == x);
                } else {
                    assert(s[s.len() - 1] == x);
                }
            }
            assert forall|i: int, j: int| 0 <= i < j < f.push(s.last()).len() implies f.push(
                s.last(),
            )[i] != f.push(s.last())[j] by {
                if j == f.len() {
                    assert(f.contains(f[i]));
                }
            }
        } else {
            assert forall|x: Seq<char>| f.contains(x) implies s.contains(x) by {
                assert(dl.contains(x));
                let j = choose|j: int| 0 <= j < dl.len() && dl[j] == x;
                assert(s[j] == x);
            }
        }
    }
}

impl PendingBrowses {
    /// No peer is waited on twice.
    #[verifier::type_invariant]
    spec fn inv(self) -> bool {
        distinct_names(views(self.names@))
    }

    /// The peers waited on, oldest first.
    pub closed spec fn waiting(self) -> Seq<Seq<char>> {
        views(self.names@)
    }

    /// Nothing awaited yet.
    pub fn new() -> (p: PendingBrowses)
        ensures
            p.waiting() == Seq::<Seq<char>>::empty(),
    {
        let p = PendingBrowses { names: Vec::new() };
        assert(p.waiting() =~= Seq::<Seq<char>>::empty());
        p
    }

    /// Starts waiting on `username`, unless already waiting on them.
    pub fn expect(&mut self, username: &str)
        ensures
            distinct_names(final(self).waiting()),
            final(self).waiting() == (if old(self).waiting().contains(username@) {
                old(self).waiting()
            } else {
                old(self).waiting().push(username@)
            }),
    {
        proof {
            use_type_invariant(&*self);
        }
        if crate::text::contains_text(&self.names, username) {
            return;
        }
        let mut names: Vec<String> = Vec::new();
        std::mem::swap(&mut names, &mut self.names);
        names.push(owned(username));
        assert(views(names@) =~= old(self).waiting().push(username@));
        self.names = names;
    }

    /// The peers waited on, oldest first.
    pub fn snapshot(&self) -> (r: Vec<String>)
        ensures
            views(r@) == self.waiting(),
    {
        let mut r: Vec<String> = Vec::new();
        let n = self.names.len();
        let mut i: usize = 0;
        while i < n
            invariant
                n == self.names@.len(),
                i <= n,
                r@ == self.names@.take(i as int),
            decreases n - i,
        {
            r.push(self.names[i].clone());
            assert(r@ =~= self.names@.take(i + 1));
            i = i + 1;
        }
        assert(self.names@.take(n as int) =~= self.names@);
        r
    }

    /// `username`'s listing arrived: stop waiting on them.
    pub fn settled(&mut self, username: &str)
        ensures
            final(self).waiting() == old(self).waiting().filter(|n: Seq<char>| n != username@),
    {
        self.forget(username);
    }

    /// Stops waiting on a peer whose request never reached the wire.
    pub fn forget(&mut self, username: &str)
        ensures
            final(self).waiting() == old(self).waiting().filter(|n: Seq<char>| n != username@),
    {
        let ghost keep = |n: Seq<char>| n != username@;
        let ghost pk = |x: String| x@ != username@;
        let mut kept: Vec<String> = Vec::new();
        let n = self.names.len();
        let mut i: usize = 0;
        proof {
            reveal(Seq::filter);
        }
        assert(self.names@.take(0) =~= Seq::<String>::empty());
        while i < n
            invariant
                n == self.names@.len(),
                i <= n,
                pk == (|x: String| x@ != username@),
                kept@ == self.names@.take(i as int).filter(pk),
            decreases n - i,
        {
            assert(self.names@.take(i + 1).drop_last() =~= self.names@.take(i as int));
            assert(self.names@.take(i + 1).last() == self.names@[i as int]);
            proof {
                reveal(Seq::filter);
            }
            if !str_eq(self.names[i].as_str(), username) {
                kept.push(self.names[i].clone());
            }
            i = i + 1;
        }
        assert(self.names@.take(n as int) =~= self.names@);
        proof {
            use_type_invariant(&*self);
            vstd::seq_lib::lemma_filter_view_commute(self.names@, pk, keep);
            lemma_filter_keeps_distinct(views(self.names@), keep);
        }
        self.names = kept;
    }
}

/// Waiting on a peer twice is waiting on them once, and once their listing
/// is settled nobody waits on them any more.
pub proof fn lemma_browse_awaited_once(before: Seq<Seq<char>>, user: Seq<char>)
    requires
        distinct_names(before),
    ensures
        ({
            let once = if before.contains(user) {
                before
            } else {
                before.push(user)
            };
            let twice = if once.contains(user) {
                once
            } else {
                once.push(user)
            };
            &&& twice == once
            &&& !once.filter(|n: Seq<char>| n != user).contains(user)
        }),
{
    let once = if before.contains(user) {
        before
    } else {
        before.push(user)
    };
    assert(once.contains(user)) by {
        if !before.contains(user) {
            assert(once[before.len() as int] == user);
        }
    }
    let f = once.filter(|n: Seq<char>| n != user);
    if f.contains(user) {
        let k = choose|k: int| 0 <= k < f.len() && f[k] == user;
        once.lemma_filter_pred(|n: Seq<char>| n != user, k);
        assert(false);
    }
}

/// A transfer the daemon started, and where its status updates arrive.
pub struct PendingDownload<R> {
    pub username: String,
    pub filename: String,
    pub updates: R,
}

/// Open files a busy session wants.
pub const WANTED_OPEN_FILES: u64 = 8192;

/// What to do about the open-file limit.
#[derive(Debug, Clone, Copy, PartialEq, Eq, Structural)]
pub enum LimitPlan {
    /// The soft limit is already enough; it is this.
    Enough(u64),
    /// Ask for this soft limit, first keeping the hard limit as it is, then
    /// with the hard limit set to it too (macOS refuses an unlimited hard
    /// limit for open files); keep the old soft limit if both are refused.
    Raise(u64),
}

/// How to get enough open files from a soft limit `soft` under a hard
/// limit `hard` (none when unlimited): enough as it is from
/// `WANTED_OPEN_FILES` up; else raise to the smaller of that and the hard
/// limit, since asking past the hard limit fails outright.
pub fn file_limit_plan(soft: u64, hard: Option<u64>) -> (r: LimitPlan)
    ensures
        soft >= WANTED_OPEN_FILES ==> r == LimitPlan::Enough(soft),
        soft < WANTED_OPEN_FILES ==> r == LimitPlan::Raise(
            match hard {
                Some(h) => if h < WANTED_OPEN_FILES {
                    h
                } else {
                    WANTED_OPEN_FILES
                },
                None => WANTED_OPEN_FILES,
            },
        ),
{
    if soft >= WANTED_OPEN_FILES {
        return LimitPlan::Enough(soft);
    }
    match hard {
        Some(h) => LimitPlan::Raise(
            if h < WANTED_OPEN_FILES {
                h
            } else {
                WANTED_OPEN_FILES
            },
        ),
        None => LimitPlan::Raise(WANTED_OPEN_FILES),
    }
}

/// The warning when the open-file limit granted is `limit`, if it is short.
pub fn open_files_warning(limit: u64) -> (r: Option<String>)
    ensures
        limit >= WANTED_OPEN_FILES ==> r is None,
        limit < WANTED_OPEN_FILES ==> (r matches Some(m) && m@ == "only "@ + decimal(limit as nat)
            + " open files allowed; a busy search wants 8192. Raise it with `ulimit -n 8192` before starting the daemon."@),
{
    if limit >= WANTED_OPEN_FILES {
        return None;
    }
    let mut m = owned("only ");
    m.append(decimal_string(limit).as_str());
    m.append(
        " open files allowed; a busy search wants 8192. Raise it with `ulimit -n 8192` before starting the daemon.",
    );
    Some(m)
}

/// The transfers the last run left unfinished, in order.
pub open spec fn unfinished_of(v: Seq<PersistedDownload>) -> Seq<PersistedDownload>
    decreases v.len(),
{
    if v.len() == 0 {
        Seq::empty()
    } else if v.last().completed {
        unfinished_of(v.drop_last())
    } else {
        unfinished_of(v.drop_last()).push(v.last())
    }
}

/// The transfers to resume at start: those not completed, in order.
pub fn unfinished(downloads: Vec<PersistedDownload>) -> (r: Vec<PersistedDownload>)
    ensures
        r@ == unfinished_of(downloads@),
{
    let n = downloads.len();
    let mut out: Vec<PersistedDownload> = Vec::new();
    let mut i: usize = 0;
    assert(downloads@.take(0) =~= Seq::<PersistedDownload>::empty());
    while i < n
        invariant
            n == downloads@.len(),
            i <= n,
            out@ == unfinished_of(downloads@.take(i as int)),
        decreases n - i,
    {
        assert(downloads@.take(i + 1).drop_last() =~= downloads@.take(i as int));
        if !downloads[i].completed {
            out.push(downloads[i].duplicate());
        }
        i = i + 1;
    }
    assert(downloads@.take(n as int) =~= downloads@);
    out
}

/// What to say as `n` transfers are resumed.
pub fn resuming_text(n: usize) -> (r: String)
    ensures
        r@ == "resuming "@ + decimal(n as nat) + " transfers"@,
{
    let mut r = owned("resuming ");
    r.append(decimal_string(n as u64).as_str());
    r.append(" transfers");
    r
}

/// How to reach the daemon from another machine, once it listens on
/// `address`: the token, the settings to make, and a warning about the
/// unencrypted port.
pub fn remote_banner(address: &str, token: &str) -> (r: String)
    ensures
        r@ == "  From another machine, point a client at "@ + address@
            + " with\n  this token:\n\n      "@ + token@
            + "\n\n      soulseek-rs config set daemon <this-host>:PORT\n      soulseek-rs config set daemon_token <token above>\n\n  That port has no encryption. Keep it off the open internet and reach it over SSH instead.\n"@,
{
    let mut r = owned("  From another machine, point a client at ");
    r.append(address);
    r.append(" with\n  this token:\n\n      ");
    r.append(token);
    r.append(
        "\n\n      soulseek-rs config set daemon <this-host>:PORT\n      soulseek-rs config set daemon_token <token above>\n\n  That port has no encryption. Keep it off the open internet and reach it over SSH instead.\n",
    );
    r
}

/// How many private messages the daemon keeps, so a client that attaches
/// later still sees what arrived while nobody was listening.
pub const HISTORY_LIMIT: usize = 500;

/// `v` cut down to its newest `HISTORY_LIMIT` entries.
pub open spec fn newest(v: Seq<ChatMessageDto>) -> Seq<ChatMessageDto> {
    if v.len() > HISTORY_LIMIT {
        v.skip(v.len() - HISTORY_LIMIT)
    } else {
        v
    }
}

/// The conversation so far, newest last, both directions.
pub struct History {
    messages: Vec<ChatMessageDto>,
}

impl History {
    /// The messages kept, oldest first.
    pub closed spec fn kept(self) -> Seq<ChatMessageDto> {
        self.messages@
    }

    /// No conversation yet.
    pub fn new() -> (r: Self)
        ensures
            r.kept().len() == 0,
    {
        History { messages: Vec::new() }
    }

    /// Adds one line, the oldest lines falling off the front beyond
    /// `HISTORY_LIMIT`.
    pub fn remember(&mut self, message: ChatMessageDto)
        ensures
            final(self).kept() == newest(old(self).kept().push(message)),
    {
        self.messages.push(message);
        let ghost all = self.messages@;
        let total = self.messages.len();
        let mut dropped: usize = 0;
        assert(all.skip(0) =~= all);
        while self.messages.len() > HISTORY_LIMIT
            invariant
                dropped <= all.len(),
                all.len() == total,
                dropped == 0 || all.len() - dropped >= HISTORY_LIMIT,
                self.messages@ == all.skip(dropped as int),
            decreases self.messages@.len(),
        {
            self.messages.remove(0);
            assert(all.skip(dropped as int).remove(0) =~= all.skip(dropped + 1));
            dropped = dropped + 1;
        }
        proof {
            if all.len() > HISTORY_LIMIT {
                assert(dropped == all.len() - HISTORY_LIMIT);
            } else {
                assert(dropped == 0);
            }
        }
    }

    /// Seeds the conversation from disk at start.
    pub fn restore(&mut self, messages: Vec<ChatMessageDto>)
        ensures
            final(self).kept() == messages@,
    {
        self.messages = messages;
    }

    /// The conversation so far, oldest first.
    pub fn history(&self) -> (r: &Vec<ChatMessageDto>)
        ensures
            r@ == self.kept(),
    {
        &self.messages
    }
}

/// A received private message as a line of the conversation.
pub fn incoming_line(message: &UserMessageDto) -> (r: ChatMessageDto)
    ensures
        r.peer == message.username,
        !r.outgoing,
        r.text == message.message,
        r.at == message.timestamp as i64,
{
    ChatMessageDto {
        peer: message.username.clone(),
        outgoing: false,
        text: message.message.clone(),
        at: message.timestamp as i64,
    }
}

/// The history never holds more than `HISTORY_LIMIT` lines once it has been
/// added to, and the line just added is always its newest.
pub proof fn lemma_history_bounded_and_newest_last(before: Seq<ChatMessageDto>, m: ChatMessageDto)
    requires
        before.len() <= HISTORY_LIMIT,
    ensures
        newest(before.push(m)).len() <= HISTORY_LIMIT,
        newest(before.push(m)).last() == m,
{
}

} // verus!

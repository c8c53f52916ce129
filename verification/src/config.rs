//! Settings: the optional values of the config file, reading and writing
//! them one key at a time, the wishlist, and the layering of the command
//! line over the file over built-in defaults.

use crate::cli::Cli;
use crate::paths::{default_download_dir, download_dir_of};
use crate::text::{
    lemma_parse_decimal, lacks,
    contains_text,
    decimal, decimal_string, join_seq, join_strings, lowercase, owned, parse_bounded, parse_uint,
    split_char, split_on, str_eq, to_lowercase, trim, trim_str, views,
};
use vstd::prelude::*;

verus! {

/// Optional settings read from the config file. Every field is optional so a
/// partial file (or none at all) is valid.
#[derive(Debug, Clone, PartialEq, Eq)]
pub struct FileConfig {
    pub username: Option<String>,
    pub server: Option<String>,
    pub listener_port: Option<u16>,
    pub disable_listener: Option<bool>,
    pub download_dir: Option<String>,
    /// Single shared folder. Prefer `shared_dirs` for multiple; both may be
    /// combined.
    pub shared_dir: Option<String>,
    /// Multiple shared folders. An explicitly empty list disables sharing.
    pub shared_dirs: Option<Vec<String>>,
    pub max_concurrent_downloads: Option<usize>,
    pub search_timeout: Option<u64>,
    /// Command whose stdout is the password.
    pub password_cmd: Option<String>,
    /// A daemon to control instead of opening a session of our own.
    pub daemon: Option<String>,
    /// The token for a remote daemon.
    pub daemon_token: Option<String>,
    /// Standing searches the server lets us repeat once per interval.
    pub wishlist: Option<Vec<String>>,
}

impl Default for FileConfig {
    /// Nothing set.
    fn default() -> (c: Self)
        ensures
            c.is_empty(),
    {
        FileConfig {
            username: None,
            server: None,
            listener_port: None,
            disable_listener: None,
            download_dir: None,
            shared_dir: None,
            shared_dirs: None,
            max_concurrent_downloads: None,
            search_timeout: None,
            password_cmd: None,
            daemon: None,
            daemon_token: None,
            wishlist: None,
        }
    }
}

/// The text of an optional string.
pub open spec fn text_of(o: Option<String>) -> Option<Seq<char>> {
    match o {
        Some(s) => Some(s@),
        None => None,
    }
}

/// Nothing when `v` is empty, `v` otherwise.
pub open spec fn unless_empty(v: Seq<char>) -> Option<Seq<char>> {
    if v.len() == 0 {
        None
    } else {
        Some(v)
    }
}

/// How a flag reads back: `true` or `false`.
pub open spec fn bool_text(b: bool) -> Seq<char> {
    if b {
        "true"@
    } else {
        "false"@
    }
}

/// The decimal text of an optional number.
pub open spec fn number_text(o: Option<nat>) -> Option<Seq<char>> {
    match o {
        Some(n) => Some(decimal(n)),
        None => None,
    }
}

/// The folders of a share list, as text.
pub open spec fn dirs_of(o: Option<Vec<String>>) -> Seq<Seq<char>> {
    match o {
        Some(v) => views(v@),
        None => Seq::empty(),
    }
}

/// The folders a comma-separated `shared_dirs` value names: each piece
/// trimmed, blank pieces dropped.
pub open spec fn dir_list(v: Seq<char>) -> Seq<Seq<char>> {
    split_on(v, ',').map_values(|p: Seq<char>| trim(p)).filter(|p: Seq<char>| p.len() > 0)
}

/// Every key `config get` and `set` accept, joined as the unknown-key message
/// lists them.
pub open spec fn keys_text() -> Seq<char> {
    "username, server, listener_port, disable_listener, download_dir, shared_dirs, max_concurrent_downloads, search_timeout, password_cmd, daemon, daemon_token"@
}

/// The message for a value a numeric key cannot hold.
pub open spec fn rejected(key: Seq<char>, value: Seq<char>) -> Seq<char> {
    key + " does not accept '"@ + value + "'"@
}

/// Whether `v` spells a true flag.
pub open spec fn is_true_word(v: Seq<char>) -> bool {
    v == "true"@ || v == "1"@ || v == "yes"@
}

/// Whether `v` spells a false flag.
pub open spec fn is_false_word(v: Seq<char>) -> bool {
    v == "false"@ || v == "0"@ || v == "no"@
}

/// The stored wish matching `query`: the first whose lowercase form equals
/// the query's.
pub open spec fn wish_position(wishes: Seq<String>, query: Seq<char>) -> Option<int>
    decreases wishes.len(),
{
    if wishes.len() == 0 {
        None
    } else {
        match wish_position(wishes.drop_last(), query) {
            Some(i) => Some(i),
            None => if lowercase(wishes.last()@) == lowercase(query) {
                Some(wishes.len() - 1)
            } else {
                None
            },
        }
    }
}

/// What `wish_position` finds: the first matching wish, or no match at all.
pub proof fn lemma_wish_position(wishes: Seq<String>, query: Seq<char>)
    ensures
        match wish_position(wishes, query) {
            Some(i) => 0 <= i < wishes.len() && lowercase(wishes[i]@) == lowercase(query)
                && forall|j: int|
                0 <= j < i ==> lowercase((#[trigger] wishes[j])@) != lowercase(query),
            None => forall|j: int|
                0 <= j < wishes.len() ==> lowercase((#[trigger] wishes[j])@) != lowercase(query),
        },
    decreases wishes.len(),
{
    if wishes.len() > 0 {
        lemma_wish_position(wishes.drop_last(), query);
        assert forall|j: int| 0 <= j < wishes.len() - 1 implies wishes[j] == wishes.drop_last()[j] by {}
    }
}

proof fn lemma_wish_position_prefix(wishes: Seq<String>, k: int, query: Seq<char>)
    requires
        0 <= k <= wishes.len(),
        wish_position(wishes.take(k), query) is Some,
    ensures
        wish_position(wishes, query) == wish_position(wishes.take(k), query),
    decreases wishes.len() - k,
{
    if k < wishes.len() {
        assert(wishes.drop_last().take(k) =~= wishes.take(k));
        lemma_wish_position_prefix(wishes.drop_last(), k, query);
    } else {
        assert(wishes.take(k) =~= wishes);
    }
}

/// No two wishes are the same query up to case.
pub open spec fn distinct_wishes(wishes: Seq<String>) -> bool {
    forall|i: int, j: int|
        0 <= i < j < wishes.len() ==> lowercase((#[trigger] wishes[i])@) != lowercase(
            (#[trigger] wishes[j])@,
        )
}

impl FileConfig {
    /// Nothing is set.
    pub open spec fn is_empty(self) -> bool {
        &&& self.username is None
        &&& self.server is None
        &&& self.listener_port is None
        &&& self.disable_listener is None
        &&& self.download_dir is None
        &&& self.shared_dir is None
        &&& self.shared_dirs is None
        &&& self.max_concurrent_downloads is None
        &&& self.search_timeout is None
        &&& self.password_cmd is None
        &&& self.daemon is None
        &&& self.daemon_token is None
        &&& self.wishlist is None
    }

    /// The stored wishes, empty when there is no list.
    pub open spec fn wish_seq(self) -> Seq<String> {
        match self.wishlist {
            Some(v) => v@,
            None => Seq::empty(),
        }
    }

    /// Every field but the ones numbered `a` and `b` (in declaration order)
    /// is the same in `self` and `other`.
    pub open spec fn same_but(self, other: Self, a: int, b: int) -> bool {
        &&& (a != 0 && b != 0 ==> self.username == other.username)
        &&& (a != 1 && b != 1 ==> self.server == other.server)
        &&& (a != 2 && b != 2 ==> self.listener_port == other.listener_port)
        &&& (a != 3 && b != 3 ==> self.disable_listener == other.disable_listener)
        &&& (a != 4 && b != 4 ==> self.download_dir == other.download_dir)
        &&& (a != 5 && b != 5 ==> self.shared_dir == other.shared_dir)
        &&& (a != 6 && b != 6 ==> self.shared_dirs == other.shared_dirs)
        &&& (a != 7 && b != 7 ==> self.max_concurrent_downloads == other.max_concurrent_downloads)
        &&& (a != 8 && b != 8 ==> self.search_timeout == other.search_timeout)
        &&& (a != 9 && b != 9 ==> self.password_cmd == other.password_cmd)
        &&& (a != 10 && b != 10 ==> self.daemon == other.daemon)
        &&& (a != 11 && b != 11 ==> self.daemon_token == other.daemon_token)
        &&& (a != 12 && b != 12 ==> self.wishlist == other.wishlist)
    }

    /// What `config get key` prints: the value of a known, set key.
    pub open spec fn spec_get(self, key: Seq<char>) -> Option<Seq<char>> {
        if key == "username"@ {
            text_of(self.username)
        } else if key == "server"@ {
            text_of(self.server)
        } else if key == "listener_port"@ {
            number_text(
                match self.listener_port {
                    Some(v) => Some(v as nat),
                    None => None,
                },
            )
        } else if key == "disable_listener"@ {
            match self.disable_listener {
                Some(b) => Some(bool_text(b)),
                None => None,
            }
        } else if key == "download_dir"@ {
            text_of(self.download_dir)
        } else if key == "shared_dirs"@ {
            if dirs_of(self.shared_dirs).len() == 0 {
                None
            } else {
                Some(join_seq(dirs_of(self.shared_dirs), ","@))
            }
        } else if key == "max_concurrent_downloads"@ {
            number_text(
                match self.max_concurrent_downloads {
                    Some(v) => Some(v as nat),
                    None => None,
                },
            )
        } else if key == "search_timeout"@ {
            number_text(
                match self.search_timeout {
                    Some(v) => Some(v as nat),
                    None => None,
                },
            )
        } else if key == "password_cmd"@ {
            text_of(self.password_cmd)
        } else if key == "daemon"@ {
            text_of(self.daemon)
        } else if key == "daemon_token"@ {
            text_of(self.daemon_token)
        } else {
            None
        }
    }
}

fn copy_text(o: &Option<String>) -> (r: Option<String>)
    ensures
        r == *o,
{
    match o {
        Some(s) => Some(s.clone()),
        None => None,
    }
}

fn number_string(o: Option<u64>) -> (r: Option<String>)
    ensures
        text_of(r) == number_text(
            match o {
                Some(v) => Some(v as nat),
                None => None,
            },
        ),
{
    match o {
        Some(v) => Some(decimal_string(v)),
        None => None,
    }
}

impl FileConfig {
    /// The value of `key`, or `None` when it is unset or unknown. Lists are
    /// rendered comma-separated.
    pub fn get(&self, key: &str) -> (r: Option<String>)
        ensures
            text_of(r) == self.spec_get(key@),
    {
        proof {
            reveal_strlit("username");
            reveal_strlit("server");
            reveal_strlit("listener_port");
            reveal_strlit("disable_listener");
            reveal_strlit("download_dir");
            reveal_strlit("shared_dirs");
            reveal_strlit("max_concurrent_downloads");
            reveal_strlit("search_timeout");
            reveal_strlit("password_cmd");
            reveal_strlit("daemon");
            reveal_strlit("daemon_token");
        }
        if str_eq(key, "username") {
            copy_text(&self.username)
        } else if str_eq(key, "server") {
            copy_text(&self.server)
        } else if str_eq(key, "listener_port") {
            number_string(
                match self.listener_port {
                    Some(v) => Some(v as u64),
                    None => None,
                },
            )
        } else if str_eq(key, "disable_listener") {
            match self.disable_listener {
                Some(b) => Some(if b {
                    owned("true")
                } else {
                    owned("false")
                }),
                None => None,
            }
        } else if str_eq(key, "download_dir") {
            copy_text(&self.download_dir)
        } else if str_eq(key, "shared_dirs") {
            match &self.shared_dirs {
                Some(dirs) => if dirs.len() == 0 {
                    None
                } else {
                    Some(join_strings(dirs, ","))
                },
                None => None,
            }
        } else if str_eq(key, "max_concurrent_downloads") {
            number_string(
                match self.max_concurrent_downloads {
                    Some(v) => Some(v as u64),
                    None => None,
                },
            )
        } else if str_eq(key, "search_timeout") {
            number_string(self.search_timeout)
        } else if str_eq(key, "password_cmd") {
            copy_text(&self.password_cmd)
        } else if str_eq(key, "daemon") {
            copy_text(&self.daemon)
        } else if str_eq(key, "daemon_token") {
            copy_text(&self.daemon_token)
        } else {
            None
        }
    }
}


/// What setting `key` to `value` does to the config `old`, giving `new`
/// and the result `r`.
pub open spec fn set_effect(
    old: FileConfig,
    new: FileConfig,
    key: Seq<char>,
    value: Seq<char>,
    r: Result<(), String>,
) -> bool {
    let v = trim(value);
    let k = key;
    if k == "username"@ {
        r is Ok && text_of(new.username) == unless_empty(v) && new.same_but(old, 0, 0)
    } else if k == "server"@ {
        r is Ok && text_of(new.server) == unless_empty(v) && new.same_but(old, 1, 1)
    } else if k == "download_dir"@ {
        r is Ok && text_of(new.download_dir) == unless_empty(v) && new.same_but(old, 4, 4)
    } else if k == "password_cmd"@ {
        r is Ok && text_of(new.password_cmd) == unless_empty(v) && new.same_but(old, 9, 9)
    } else if k == "daemon"@ {
        r is Ok && text_of(new.daemon) == unless_empty(v) && new.same_but(old, 10, 10)
    } else if k == "daemon_token"@ {
        r is Ok && text_of(new.daemon_token) == unless_empty(v) && new.same_but(old, 11, 11)
    } else if k == "listener_port"@ {
        if v.len() == 0 {
            r is Ok && new.listener_port is None && new.same_but(
                old,
                2,
                2,
            )
        } else {
            match parse_bounded(v, 65535) {
                Some(n) => r is Ok && new.listener_port == Some(n as u16)
                    && new.same_but(old, 2, 2),
                None => r matches Err(e) && e@ == rejected(k, v) && new
                    == old,
            }
        }
    } else if k == "max_concurrent_downloads"@ {
        if v.len() == 0 {
            r is Ok && new.max_concurrent_downloads is None && new.same_but(old, 7, 7)
        } else {
            match parse_bounded(v, usize::MAX as nat) {
                Some(n) => r is Ok && new.max_concurrent_downloads == Some(
                    n as usize,
                ) && new.same_but(old, 7, 7),
                None => r matches Err(e) && e@ == rejected(k, v) && new
                    == old,
            }
        }
    } else if k == "search_timeout"@ {
        if v.len() == 0 {
            r is Ok && new.search_timeout is None && new.same_but(
                old,
                8,
                8,
            )
        } else {
            match parse_bounded(v, u64::MAX as nat) {
                Some(n) => r is Ok && new.search_timeout == Some(n as u64)
                    && new.same_but(old, 8, 8),
                None => r matches Err(e) && e@ == rejected(k, v) && new
                    == old,
            }
        }
    } else if k == "disable_listener"@ {
        if v.len() == 0 {
            r is Ok && new.disable_listener is None && new.same_but(
                old,
                3,
                3,
            )
        } else if is_true_word(v) {
            r is Ok && new.disable_listener == Some(true) && new.same_but(old, 3, 3)
        } else if is_false_word(v) {
            r is Ok && new.disable_listener == Some(false) && new.same_but(old, 3, 3)
        } else {
            r matches Err(e) && e@ == "disable_listener wants true or false, got '"@
                + v + "'"@ && new == old
        }
    } else if k == "shared_dirs"@ {
        &&& r is Ok
        &&& new.shared_dir is None
        &&& new.same_but(old, 5, 6)
        &&& if v.len() == 0 {
            new.shared_dirs is None
        } else {
            new.shared_dirs is Some && dirs_of(new.shared_dirs)
                == dir_list(v)
        }
    } else {
        r matches Err(e) && e@ == "unknown setting '"@ + k + "' — try one of: "@
            + keys_text() && new == old
    }
}

fn text_value(v: &str) -> (r: Option<String>)
    ensures
        text_of(r) == unless_empty(v@),
{
    if v.unicode_len() == 0 {
        None
    } else {
        Some(owned(v))
    }
}

fn rejection(key: &str, value: &str) -> (r: String)
    ensures
        r@ == rejected(key@, value@),
{
    let mut r = owned(key);
    r.append(" does not accept '");
    r.append(value);
    r.append("'");
    r
}

fn dir_values(v: &str) -> (r: Vec<String>)
    ensures
        views(r@) == dir_list(v@),
{
    let pieces = split_char(v, ',');
    let ghost trimmed = split_on(v@, ',').map_values(|p: Seq<char>| trim(p));
    let ghost keep = |p: Seq<char>| p.len() > 0;
    let mut r: Vec<String> = Vec::new();
    let n = pieces.len();
    let mut i: usize = 0;
    assert(trimmed.take(0) =~= Seq::<Seq<char>>::empty());
    proof {
        reveal(Seq::filter);
    }
    assert(views(r@) =~= trimmed.take(0).filter(keep));
    while i < n
        invariant
            n == pieces@.len(),
            i <= n,
            views(pieces@) == split_on(v@, ','),
            trimmed == split_on(v@, ',').map_values(|p: Seq<char>| trim(p)),
            keep == (|p: Seq<char>| p.len() > 0),
            views(r@) == trimmed.take(i as int).filter(keep),
        decreases n - i,
    {
        let piece = trim_str(pieces[i].as_str());
        assert(views(pieces@)[i as int] == pieces@[i as int]@);
        assert(trimmed[i as int] == piece@);
        assert(trimmed.take(i + 1).drop_last() =~= trimmed.take(i as int));
        proof {
            reveal(Seq::filter);
        }
        if piece.unicode_len() > 0 {
            r.push(owned(piece));
            assert(views(r@) =~= trimmed.take(i as int).filter(keep).push(piece@));
        }
        i = i + 1;
    }
    assert(trimmed.take(n as int) =~= trimmed);
    r
}

impl FileConfig {
    /// Set `key` to `value` (trimmed), or clear it when `value` is blank.
    /// Fails, changing nothing, with a message naming the problem when the
    /// key is unknown or the value does not parse as that setting's type.
    pub fn set(&mut self, key: &str, value: &str) -> (r: Result<(), String>)
        ensures
            set_effect(*old(self), *final(self), key@, value@, r),
    {
        proof {
            reveal_strlit("username");
            reveal_strlit("server");
            reveal_strlit("listener_port");
            reveal_strlit("disable_listener");
            reveal_strlit("download_dir");
            reveal_strlit("shared_dirs");
            reveal_strlit("max_concurrent_downloads");
            reveal_strlit("search_timeout");
            reveal_strlit("password_cmd");
            reveal_strlit("daemon");
            reveal_strlit("daemon_token");
        }
        let value = trim_str(value);
        let clear = value.unicode_len() == 0;
        if str_eq(key, "username") {
            self.username = text_value(value);
        } else if str_eq(key, "server") {
            self.server = text_value(value);
        } else if str_eq(key, "download_dir") {
            self.download_dir = text_value(value);
        } else if str_eq(key, "password_cmd") {
            self.password_cmd = text_value(value);
        } else if str_eq(key, "daemon") {
            self.daemon = text_value(value);
        } else if str_eq(key, "daemon_token") {
            self.daemon_token = text_value(value);
        } else if str_eq(key, "listener_port") {
            if clear {
                self.listener_port = None;
            } else {
                match parse_uint(value, 65535) {
                    Some(n) => self.listener_port = Some(n as u16),
                    None => return Err(rejection(key, value)),
                }
            }
        } else if str_eq(key, "max_concurrent_downloads") {
            if clear {
                self.max_concurrent_downloads = None;
            } else {
                match parse_uint(value, usize::MAX as u64) {
                    Some(n) => self.max_concurrent_downloads = Some(n as usize),
                    None => return Err(rejection(key, value)),
                }
            }
        } else if str_eq(key, "search_timeout") {
            if clear {
                self.search_timeout = None;
            } else {
                match parse_uint(value, u64::MAX) {
                    Some(n) => self.search_timeout = Some(n),
                    None => return Err(rejection(key, value)),
                }
            }
        } else if str_eq(key, "disable_listener") {
            if clear {
                self.disable_listener = None;
            } else if str_eq(value, "true") || str_eq(value, "1") || str_eq(value, "yes") {
                self.disable_listener = Some(true);
            } else if str_eq(value, "false") || str_eq(value, "0") || str_eq(value, "no") {
                self.disable_listener = Some(false);
            } else {
                let mut e = owned("disable_listener wants true or false, got '");
                e.append(value);
                e.append("'");
                return Err(e);
            }
        } else if str_eq(key, "shared_dirs") {
            if clear {
                self.shared_dirs = None;
            } else {
                self.shared_dirs = Some(dir_values(value));
            }
            self.shared_dir = None;
        } else {
            let mut e = owned("unknown setting '");
            e.append(key);
            e.append("' — try one of: ");
            e.append(
                "username, server, listener_port, disable_listener, download_dir, shared_dirs, max_concurrent_downloads, search_timeout, password_cmd, daemon, daemon_token",
            );
            return Err(e);
        }
        Ok(())
    }
}


impl FileConfig {
    /// Every setting `config get` and `set` accept, in the order `config
    /// list` prints them.
    pub const KEYS: [&'static str; 11] = [
        "username",
        "server",
        "listener_port",
        "disable_listener",
        "download_dir",
        "shared_dirs",
        "max_concurrent_downloads",
        "search_timeout",
        "password_cmd",
        "daemon",
        "daemon_token",
    ];

    /// The standing searches, in the order they were added.
    pub fn wishes(&self) -> (r: Vec<String>)
        ensures
            r@ == self.wish_seq(),
    {
        match &self.wishlist {
            Some(list) => {
                let mut r: Vec<String> = Vec::new();
                let n = list.len();
                let mut i: usize = 0;
                while i < n
                    invariant
                        n == list@.len(),
                        i <= n,
                        r@ == list@.take(i as int),
                    decreases n - i,
                {
                    r.push(list[i].clone());
                    assert(r@ =~= list@.take(i + 1));
                    i = i + 1;
                }
                assert(list@.take(n as int) =~= list@);
                r
            },
            None => {
                let r: Vec<String> = Vec::new();
                assert(r@ =~= Seq::<String>::empty());
                r
            },
        }
    }

    fn find_wish(&self, query: &str) -> (r: Option<usize>)
        ensures
            match r {
                Some(i) => wish_position(self.wish_seq(), query@) == Some(i as int),
                None => wish_position(self.wish_seq(), query@) is None,
            },
    {
        let wanted = to_lowercase(query);
        match &self.wishlist {
            None => None,
            Some(list) => {
                let n = list.len();
                let mut i: usize = 0;
                assert(list@.take(0) =~= Seq::<String>::empty());
                while i < n
                    invariant
                        n == list@.len(),
                        i <= n,
                        wanted@ == lowercase(query@),
                        list@ == self.wish_seq(),
                        wish_position(list@.take(i as int), query@) is None,
                    decreases n - i,
                {
                    assert(list@.take(i + 1).drop_last() =~= list@.take(i as int));
                    let lower = to_lowercase(list[i].as_str());
                    if str_eq(lower.as_str(), wanted.as_str()) {
                        assert(list@.take(i + 1).last() == list@[i as int]);
                        proof {
                            lemma_wish_position_prefix(list@, i + 1, query@);
                        }
                        return Some(i);
                    }
                    i = i + 1;
                }
                assert(list@.take(n as int) =~= list@);
                None
            },
        }
    }

    /// The stored wish matching `query` (trimmed), compared case-insensitively.
    pub fn wish(&self, query: &str) -> (r: Option<&String>)
        ensures
            match wish_position(self.wish_seq(), trim(query@)) {
                Some(i) => r == Some(&self.wish_seq()[i]),
                None => r is None,
            },
    {
        let index = self.find_wish(trim_str(query));
        proof {
            lemma_wish_position(self.wish_seq(), trim(query@));
        }
        match index {
            Some(i) => match &self.wishlist {
                Some(list) => Some(&list[i]),
                None => None,
            },
            None => None,
        }
    }

    /// Add `query` (trimmed) to the wishlist. Refuses, returning `false`, a
    /// blank query and a case-insensitive repeat.
    pub fn add_wish(&mut self, query: &str) -> (added: bool)
        ensures
            ({
                let q = trim(query@);
                if q.len() == 0 || wish_position(old(self).wish_seq(), q) is Some {
                    !added && *final(self) == *old(self)
                } else {
                    &&& added
                    &&& final(self).wishlist is Some
                    &&& final(self).wish_seq().len() == old(self).wish_seq().len() + 1
                    &&& final(self).wish_seq().drop_last() == old(self).wish_seq()
                    &&& final(self).wish_seq().last()@ == q
                    &&& final(self).same_but(*old(self), 12, 12)
                }
            }),
    {
        let query = trim_str(query);
        if query.unicode_len() == 0 {
            return false;
        }
        if self.find_wish(query).is_some() {
            return false;
        }
        let mut list = match self.wishlist.take() {
            Some(list) => list,
            None => Vec::new(),
        };
        let ghost before = list@;
        assert(before =~= old(self).wish_seq());
        list.push(owned(query));
        self.wishlist = Some(list);
        assert(self.wish_seq().drop_last() =~= old(self).wish_seq());
        true
    }

    /// Remove the wish matching `query` (trimmed, any case). Returns whether
    /// it was there.
    pub fn remove_wish(&mut self, query: &str) -> (removed: bool)
        ensures
            match wish_position(old(self).wish_seq(), trim(query@)) {
                Some(i) => {
                    &&& removed
                    &&& final(self).wishlist is Some
                    &&& final(self).wish_seq() == old(self).wish_seq().remove(i)
                    &&& final(self).same_but(*old(self), 12, 12)
                },
                None => !removed && *final(self) == *old(self),
            },
    {
        let index = self.find_wish(trim_str(query));
        proof {
            lemma_wish_position(self.wish_seq(), trim(query@));
        }
        match index {
            None => false,
            Some(i) => {
                let mut list = match self.wishlist.take() {
                    Some(list) => list,
                    None => Vec::new(),
                };
                assert(list@ =~= old(self).wish_seq());
                list.remove(i);
                self.wishlist = Some(list);
                true
            },
        }
    }
}

/// Adding a wish keeps the wishlist free of case-insensitive repeats, and
/// afterwards the query (trimmed) is on it.
pub proof fn lemma_add_wish_keeps_distinct(before: FileConfig, after: FileConfig, query: Seq<char>, added: bool)
    requires
        distinct_wishes(before.wish_seq()),
        ({
            let q = trim(query);
            if q.len() == 0 || wish_position(before.wish_seq(), q) is Some {
                !added && after == before
            } else {
                &&& added
                &&& after.wish_seq().len() == before.wish_seq().len() + 1
                &&& after.wish_seq().drop_last() == before.wish_seq()
                &&& after.wish_seq().last()@ == q
            }
        }),
    ensures
        distinct_wishes(after.wish_seq()),
        trim(query).len() > 0 ==> wish_position(after.wish_seq(), trim(query)) is Some,
{
    let q = trim(query);
    lemma_wish_position(before.wish_seq(), q);
    lemma_wish_position(after.wish_seq(), q);
    if added {
        let a = after.wish_seq();
        assert forall|i: int, j: int| 0 <= i < j < a.len() implies lowercase((#[trigger] a[i])@)
            != lowercase((#[trigger] a[j])@) by {
            if j == a.len() - 1 {
                assert(a[i] == before.wish_seq()[i]);
            } else {
                assert(a[i] == before.wish_seq()[i] && a[j] == before.wish_seq()[j]);
            }
        }
        assert(lowercase(a[a.len() - 1]@) == lowercase(q));
    }
}

/// Removing a wish keeps the list free of repeats, leaves the other wishes
/// in their order, and afterwards nothing on the list matches the query.
pub proof fn lemma_remove_wish_clears(before: FileConfig, after: FileConfig, query: Seq<char>)
    requires
        distinct_wishes(before.wish_seq()),
        match wish_position(before.wish_seq(), trim(query)) {
            Some(i) => after.wish_seq() == before.wish_seq().remove(i),
            None => after == before,
        },
    ensures
        distinct_wishes(after.wish_seq()),
        wish_position(after.wish_seq(), trim(query)) is None,
{
    let q = trim(query);
    lemma_wish_position(before.wish_seq(), q);
    lemma_wish_position(after.wish_seq(), q);
    if let Some(k) = wish_position(before.wish_seq(), q) {
        let b = before.wish_seq();
        let a = after.wish_seq();
        assert forall|i: int, j: int| 0 <= i < j < a.len() implies lowercase((#[trigger] a[i])@)
            != lowercase((#[trigger] a[j])@) by {
            let bi = if i < k { i } else { i + 1 };
            let bj = if j < k { j } else { j + 1 };
            assert(a[i] == b[bi] && a[j] == b[bj]);
        }
        assert forall|j: int| 0 <= j < a.len() implies lowercase((#[trigger] a[j])@) != lowercase(q) by {
            let bj = if j < k { j } else { j + 1 };
            assert(a[j] == b[bj]);
            if bj != k {
                if bj < k {
                    assert(lowercase(b[bj]@) != lowercase(b[k]@));
                } else {
                    assert(lowercase(b[k]@) != lowercase(b[bj]@));
                }
            }
        }
    }
}


/// Fully-resolved settings after layering the command line over the config
/// file over built-in defaults.
#[derive(Debug, Clone, PartialEq, Eq)]
pub struct Resolved {
    pub username: Option<String>,
    pub server: String,
    pub listener_port: u16,
    pub disable_listener: bool,
    pub download_dir: String,
    pub shared_dirs: Vec<String>,
    pub max_concurrent_downloads: usize,
    pub search_timeout: u64,
    pub password_cmd: Option<String>,
    pub daemon: Option<String>,
    pub daemon_token: Option<String>,
}

pub const DEFAULT_SERVER: &'static str = "server.slsknet.org:2416";

pub const DEFAULT_LISTENER_PORT: u16 = 2234;

/// How many downloads run at once by default.
pub const DEFAULT_MAX_CONCURRENT_DOWNLOADS: usize = 20;

pub const DEFAULT_SEARCH_TIMEOUT: u64 = 10;

/// The command line's value, else the file's.
pub open spec fn first_of<T>(a: Option<T>, b: Option<T>) -> Option<T> {
    match a {
        Some(x) => Some(x),
        None => b,
    }
}

/// The trimmed, non-blank folders of `s`, each kept at its first mention.
pub open spec fn first_kept(s: Seq<Seq<char>>) -> Seq<Seq<char>>
    decreases s.len(),
{
    if s.len() == 0 {
        Seq::empty()
    } else {
        let d = first_kept(s.drop_last());
        let x = trim(s.last());
        if x.len() == 0 || d.contains(x) {
            d
        } else {
            d.push(x)
        }
    }
}

/// Every folder named for sharing: the command line's, then the file's
/// single folder, then the file's list.
pub open spec fn share_candidates(cli: Cli, file: FileConfig) -> Seq<Seq<char>> {
    views(cli.shared_dir@) + (match file.shared_dir {
        Some(d) => seq![d@],
        None => Seq::empty(),
    }) + dirs_of(file.shared_dirs)
}

/// What is shared: the download folder when nothing is configured, else
/// every configured folder once (an explicitly empty value shares nothing).
pub open spec fn resolved_shares(cli: Cli, file: FileConfig, download_dir: Seq<char>) -> Seq<
    Seq<char>,
> {
    if cli.shared_dir@.len() == 0 && file.shared_dir is None && file.shared_dirs is None {
        seq![download_dir]
    } else {
        first_kept(share_candidates(cli, file))
    }
}

fn candidates_of(cli: &Cli, file: &FileConfig) -> (r: Vec<String>)
    ensures
        views(r@) == share_candidates(*cli, *file),
{
    let mut r: Vec<String> = Vec::new();
    let n = cli.shared_dir.len();
    let mut i: usize = 0;
    while i < n
        invariant
            n == cli.shared_dir@.len(),
            i <= n,
            r@ == cli.shared_dir@.take(i as int),
        decreases n - i,
    {
        r.push(cli.shared_dir[i].clone());
        assert(r@ =~= cli.shared_dir@.take(i + 1));
        i = i + 1;
    }
    assert(cli.shared_dir@.take(n as int) =~= cli.shared_dir@);
    let ghost first = views(r@);
    assert(first =~= views(cli.shared_dir@));
    match &file.shared_dir {
        Some(d) => {
            r.push(d.clone());
        },
        None => {},
    }
    let ghost second = views(r@);
    let ghost second_values = r@;
    assert(second =~= first + (match file.shared_dir {
        Some(d) => seq![d@],
        None => Seq::empty(),
    }));
    match &file.shared_dirs {
        Some(list) => {
            let m = list.len();
            let mut j: usize = 0;
            while j < m
                invariant
                    m == list@.len(),
                    j <= m,
                    r@ == second_values + list@.take(j as int),
                    second == views(second_values),
                decreases m - j,
            {
                r.push(list[j].clone());
                assert(r@ =~= second_values + list@.take(j + 1));
                j = j + 1;
            }
            assert(list@.take(m as int) =~= list@);
            assert(views(r@) =~= second + views(list@));
        },
        None => {
            assert(views(r@) =~= second + dirs_of(file.shared_dirs));
        },
    }
    r
}

fn resolve_shared_dirs(cli: &Cli, file: &FileConfig, download_dir: &str) -> (r: Vec<String>)
    ensures
        views(r@) == resolved_shares(*cli, *file, download_dir@),
{
    if cli.shared_dir.len() == 0 && file.shared_dir.is_none() && file.shared_dirs.is_none() {
        let mut r: Vec<String> = Vec::new();
        r.push(owned(download_dir));
        assert(views(r@) =~= seq![download_dir@]);
        return r;
    }
    let all = candidates_of(cli, file);
    let ghost c = views(all@);
    let mut dirs: Vec<String> = Vec::new();
    let n = all.len();
    let mut i: usize = 0;
    assert(c.take(0) =~= Seq::<Seq<char>>::empty());
    while i < n
        invariant
            n == all@.len(),
            i <= n,
            c == views(all@),
            views(dirs@) == first_kept(c.take(i as int)),
        decreases n - i,
    {
        let dir = trim_str(all[i].as_str());
        assert(c.take(i + 1).drop_last() =~= c.take(i as int));
        assert(c.take(i + 1).last() == all@[i as int]@);
        if dir.unicode_len() > 0 && !contains_text(&dirs, dir) {
            dirs.push(owned(dir));
            assert(views(dirs@) =~= first_kept(c.take(i as int)).push(dir@));
        }
        i = i + 1;
    }
    assert(c.take(n as int) =~= c);
    dirs
}

/// Layer command-line values over the config file over defaults;
/// `default_download_dir` is the platform's download folder, used when
/// neither names one.
///
/// `--listener` beats `--no-listener`, which beats the file's
/// `disable_listener`, so a config file can always be overridden per run.
pub fn resolve_with(cli: &Cli, file: &FileConfig, default_download_dir: &str) -> (r: Resolved)
    ensures
        r.username == first_of(cli.username, file.username),
        r.server@ == (match first_of(cli.server, file.server) {
            Some(s) => s@,
            None => DEFAULT_SERVER@,
        }),
        r.listener_port == (match first_of(cli.listener_port, file.listener_port) {
            Some(p) => p,
            None => DEFAULT_LISTENER_PORT,
        }),
        r.disable_listener == (if cli.listener {
            false
        } else {
            cli.no_listener || file.disable_listener == Some(true)
        }),
        r.download_dir@ == (match first_of(cli.download_dir, file.download_dir) {
            Some(d) => d@,
            None => default_download_dir@,
        }),
        views(r.shared_dirs@) == resolved_shares(*cli, *file, r.download_dir@),
        r.max_concurrent_downloads == (match first_of(
            cli.max_concurrent_downloads,
            file.max_concurrent_downloads,
        ) {
            Some(n) => n,
            None => DEFAULT_MAX_CONCURRENT_DOWNLOADS,
        }),
        r.search_timeout == (match first_of(cli.search_timeout, file.search_timeout) {
            Some(n) => n,
            None => DEFAULT_SEARCH_TIMEOUT,
        }),
        r.password_cmd == first_of(cli.password_cmd, file.password_cmd),
        r.daemon == first_of(cli.daemon, file.daemon),
        r.daemon_token == first_of(cli.daemon_token, file.daemon_token),
{
    let download_dir = match &cli.download_dir {
        Some(d) => d.clone(),
        None => match &file.download_dir {
            Some(d) => d.clone(),
            None => owned(default_download_dir),
        },
    };
    let shared_dirs = resolve_shared_dirs(cli, file, download_dir.as_str());
    Resolved {
        username: match &cli.username {
            Some(u) => Some(u.clone()),
            None => copy_text(&file.username),
        },
        server: match &cli.server {
            Some(s) => s.clone(),
            None => match &file.server {
                Some(s) => s.clone(),
                None => owned(DEFAULT_SERVER),
            },
        },
        listener_port: match cli.listener_port {
            Some(p) => p,
            None => match file.listener_port {
                Some(p) => p,
                None => DEFAULT_LISTENER_PORT,
            },
        },
        disable_listener: if cli.listener {
            false
        } else {
            cli.no_listener || match file.disable_listener {
                Some(b) => b,
                None => false,
            }
        },
        download_dir,
        shared_dirs,
        max_concurrent_downloads: match cli.max_concurrent_downloads {
            Some(n) => n,
            None => match file.max_concurrent_downloads {
                Some(n) => n,
                None => DEFAULT_MAX_CONCURRENT_DOWNLOADS,
            },
        },
        search_timeout: match cli.search_timeout {
            Some(n) => n,
            None => match file.search_timeout {
                Some(n) => n,
                None => DEFAULT_SEARCH_TIMEOUT,
            },
        },
        password_cmd: match &cli.password_cmd {
            Some(c) => Some(c.clone()),
            None => copy_text(&file.password_cmd),
        },
        daemon: match &cli.daemon {
            Some(d) => Some(d.clone()),
            None => copy_text(&file.daemon),
        },
        daemon_token: match &cli.daemon_token {
            Some(t) => Some(t.clone()),
            None => copy_text(&file.daemon_token),
        },
    }
}


/// Layers command-line values over the config file over defaults, with
/// this machine's download folder as the default one.
pub fn resolve(cli: &Cli, file: &FileConfig) -> (r: Resolved)
    ensures
        exists|d: Option<Seq<char>>, h: Option<Seq<char>>|
            r.download_dir@ == (match first_of(cli.download_dir, file.download_dir) {
                Some(x) => x@,
                None => #[trigger] download_dir_of(d, h),
            }),
        views(r.shared_dirs@) == resolved_shares(*cli, *file, r.download_dir@),
        r.username == first_of(cli.username, file.username),
        r.server@ == (match first_of(cli.server, file.server) {
            Some(s) => s@,
            None => DEFAULT_SERVER@,
        }),
        r.listener_port == (match first_of(cli.listener_port, file.listener_port) {
            Some(p) => p,
            None => DEFAULT_LISTENER_PORT,
        }),
        r.disable_listener == (if cli.listener {
            false
        } else {
            cli.no_listener || file.disable_listener == Some(true)
        }),
        r.max_concurrent_downloads == (match first_of(
            cli.max_concurrent_downloads,
            file.max_concurrent_downloads,
        ) {
            Some(n) => n,
            None => DEFAULT_MAX_CONCURRENT_DOWNLOADS,
        }),
        r.search_timeout == (match first_of(cli.search_timeout, file.search_timeout) {
            Some(n) => n,
            None => DEFAULT_SEARCH_TIMEOUT,
        }),
        r.password_cmd == first_of(cli.password_cmd, file.password_cmd),
        r.daemon == first_of(cli.daemon, file.daemon),
        r.daemon_token == first_of(cli.daemon_token, file.daemon_token),
{
    let default_dir = default_download_dir();
    resolve_with(cli, file, default_dir.as_str())
}

proof fn reveal_keys()
    ensures
        "username"@.len() == 8,
        "server"@.len() == 6,
        "listener_port"@.len() == 13,
        "disable_listener"@.len() == 16,
        "download_dir"@.len() == 12,
        "shared_dirs"@.len() == 11,
        "max_concurrent_downloads"@.len() == 24,
        "search_timeout"@.len() == 14,
        "password_cmd"@.len() == 12,
        "daemon"@.len() == 6,
        "daemon_token"@.len() == 12,
        "server"@[0] == 's',
        "daemon"@[0] == 'd',
        "download_dir"@[1] == 'o',
        "password_cmd"@[1] == 'a',
        "password_cmd"@[0] == 'p',
        "daemon_token"@[1] == 'a',
        "daemon_token"@[0] == 'd',
        "download_dir"@[0] == 'd',
{
    reveal_strlit("username");
    reveal_strlit("server");
    reveal_strlit("listener_port");
    reveal_strlit("disable_listener");
    reveal_strlit("download_dir");
    reveal_strlit("shared_dirs");
    reveal_strlit("max_concurrent_downloads");
    reveal_strlit("search_timeout");
    reveal_strlit("password_cmd");
    reveal_strlit("daemon");
    reveal_strlit("daemon_token");
}

/// The settings that hold free text.
pub open spec fn is_text_key(k: Seq<char>) -> bool {
    k == "username"@ || k == "server"@ || k == "download_dir"@ || k == "password_cmd"@ || k
        == "daemon"@ || k == "daemon_token"@
}

/// A text setting reads back what was written to it (trimmed), and nothing
/// when a blank value was written.
pub proof fn lemma_text_setting_round_trips(
    old: FileConfig,
    new: FileConfig,
    key: Seq<char>,
    value: Seq<char>,
    r: Result<(), String>,
)
    requires
        is_text_key(key),
        set_effect(old, new, key, value, r),
    ensures
        r is Ok,
        new.spec_get(key) == unless_empty(trim(value)),
{
    reveal_keys();
}

/// The largest number a numeric setting holds.
pub open spec fn number_limit(k: Seq<char>) -> nat {
    if k == "listener_port"@ {
        65535
    } else if k == "max_concurrent_downloads"@ {
        usize::MAX as nat
    } else {
        u64::MAX as nat
    }
}

/// A numeric setting written as a decimal number it can hold reads back as
/// that number.
pub proof fn lemma_number_setting_round_trips(
    old: FileConfig,
    new: FileConfig,
    key: Seq<char>,
    n: nat,
    r: Result<(), String>,
)
    requires
        key == "listener_port"@ || key == "max_concurrent_downloads"@ || key == "search_timeout"@,
        n <= number_limit(key),
        set_effect(old, new, key, decimal(n), r),
    ensures
        r is Ok,
        new.spec_get(key) == Some(decimal(n)),
{
    reveal_keys();
    lemma_parse_decimal(n);
    crate::text::lemma_decimal_digits(n);
}

/// The flag reads back as `true` or `false` when written as either.
pub proof fn lemma_flag_round_trips(
    old: FileConfig,
    new: FileConfig,
    b: bool,
    r: Result<(), String>,
)
    requires
        set_effect(old, new, "disable_listener"@, bool_text(b), r),
    ensures
        r is Ok,
        new.spec_get("disable_listener"@) == Some(bool_text(b)),
{
    reveal_keys();
    reveal_strlit("true");
    reveal_strlit("false");
    reveal_strlit("1");
    reveal_strlit("yes");
    reveal_strlit("0");
    reveal_strlit("no");
    let v = bool_text(b);
    assert(!crate::text::is_space(v[0]));
    assert(!crate::text::is_space(v.last()));
    assert(crate::text::trim_start(v) == v);
    assert(crate::text::trim_end(v) == v);
}

/// Writing a blank value clears any known setting: it reads back as unset.
pub proof fn lemma_blank_value_clears(
    old: FileConfig,
    new: FileConfig,
    key: Seq<char>,
    value: Seq<char>,
    r: Result<(), String>,
)
    requires
        old.spec_get(key) is Some,
        trim(value).len() == 0,
        set_effect(old, new, key, value, r),
    ensures
        r is Ok,
        new.spec_get(key) is None,
{
    reveal_keys();
}

/// An unknown key or an unreadable value changes nothing.
pub proof fn lemma_failed_set_changes_nothing(
    old: FileConfig,
    new: FileConfig,
    key: Seq<char>,
    value: Seq<char>,
    r: Result<(), String>,
)
    requires
        set_effect(old, new, key, value, r),
        r is Err,
    ensures
        new == old,
{
}

/// The shared-folder list reads back as the folders the written value
/// named: each comma-separated piece trimmed, blank ones dropped, joined by
/// commas; nothing when it named none.
pub proof fn lemma_shared_dirs_round_trip(
    old: FileConfig,
    new: FileConfig,
    value: Seq<char>,
    r: Result<(), String>,
)
    requires
        set_effect(old, new, "shared_dirs"@, value, r),
    ensures
        r is Ok,
        new.spec_get("shared_dirs"@) == (if dir_list(trim(value)).len() == 0 {
            None
        } else {
            Some(join_seq(dir_list(trim(value)), ","@))
        }),
{
    reveal_keys();
    if trim(value).len() == 0 {
        assert(split_on(trim(value), ',') =~= seq![Seq::<char>::empty()]);
        reveal(Seq::filter);
        let m = split_on(trim(value), ',').map_values(|p: Seq<char>| trim(p));
        assert(m.len() == 1);
        assert(trim(Seq::<char>::empty()) =~= Seq::<char>::empty());
        assert(m.drop_last().filter(|p: Seq<char>| p.len() > 0) =~= Seq::<Seq<char>>::empty());
        assert(dir_list(trim(value)).len() == 0);
    }
}

/// A filter that keeps every element keeps the sequence.
proof fn lemma_filter_keeps_all<A>(s: Seq<A>, pred: spec_fn(A) -> bool)
    requires
        forall|i: int| 0 <= i < s.len() ==> pred(#[trigger] s[i]),
    ensures
        s.filter(pred) == s,
    decreases s.len(),
{
    reveal(Seq::filter);
    if s.len() > 0 {
        lemma_filter_keeps_all(s.drop_last(), pred);
        assert(pred(s[s.len() - 1]));
        assert(s.drop_last().push(s.last()) =~= s);
    }
}

/// Folders without commas, joined by commas, split back into themselves.
proof fn lemma_split_joined_dirs(ds: Seq<Seq<char>>)
    requires
        ds.len() > 0,
        forall|i: int| 0 <= i < ds.len() ==> lacks(#[trigger] ds[i], ','),
    ensures
        split_on(join_seq(ds, ","@), ',') == ds,
    decreases ds.len(),
{
    reveal_strlit(",");
    assert(","@ =~= seq![',']);
    if ds.len() == 1 {
        crate::text::lemma_split_without(ds[0], ',');
        assert(seq![ds[0]] =~= ds);
    } else {
        let dl = ds.drop_last();
        lemma_split_joined_dirs(dl);
        crate::text::lemma_split_concat(join_seq(dl, ","@), ds.last(), ',');
        crate::text::lemma_split_without(ds.last(), ',');
        assert(join_seq(ds, ","@) == join_seq(dl, ","@) + seq![','] + ds.last());
        assert(dl + seq![ds.last()] =~= ds);
    }
}

/// Folders written as one comma-separated value, none blank, none with a
/// comma or white space at its ends, and the value itself without white
/// space around it, read back exactly as written.
pub proof fn lemma_shared_dirs_read_back_as_written(
    old: FileConfig,
    new: FileConfig,
    ds: Seq<Seq<char>>,
    r: Result<(), String>,
)
    requires
        ds.len() > 0,
        forall|i: int|
            0 <= i < ds.len() ==> (#[trigger] ds[i]).len() > 0 && trim(ds[i]) == ds[i] && lacks(
                ds[i],
                ',',
            ),
        trim(join_seq(ds, ","@)) == join_seq(ds, ","@),
        set_effect(old, new, "shared_dirs"@, join_seq(ds, ","@), r),
    ensures
        r is Ok,
        new.spec_get("shared_dirs"@) == Some(join_seq(ds, ","@)),
{
    let v = join_seq(ds, ","@);
    lemma_shared_dirs_round_trip(old, new, v, r);
    lemma_split_joined_dirs(ds);
    let m = split_on(v, ',').map_values(|p: Seq<char>| trim(p));
    assert(m =~= ds);
    lemma_filter_keeps_all(m, |p: Seq<char>| p.len() > 0);
    assert(dir_list(v) == ds);
}

/// Settings with nothing set read nothing back, for every key.
pub proof fn lemma_empty_settings_read_nothing(c: FileConfig, key: Seq<char>)
    requires
        c.is_empty(),
    ensures
        c.spec_get(key) is None,
{
}

/// Whether `value` is written the way `key` reads back: free text with no
/// white space at its ends, a decimal number the setting can hold, `true`
/// or `false`, or folders joined by commas, none blank, none holding a
/// comma or white space at its ends.
pub open spec fn written_as_read(key: Seq<char>, value: Seq<char>) -> bool {
    if is_text_key(key) {
        value.len() > 0 && trim(value) == value
    } else if key == "listener_port"@ || key == "max_concurrent_downloads"@ || key
        == "search_timeout"@ {
        exists|n: nat| n <= number_limit(key) && value == decimal(n)
    } else if key == "disable_listener"@ {
        value == bool_text(true) || value == bool_text(false)
    } else if key == "shared_dirs"@ {
        exists|ds: Seq<Seq<char>>|
            ds.len() > 0 && (forall|i: int|
                0 <= i < ds.len() ==> (#[trigger] ds[i]).len() > 0 && trim(ds[i]) == ds[i]
                    && lacks(ds[i], ',')) && trim(value) == value && value == join_seq(ds, ","@)
    } else {
        false
    }
}

/// Every setting `config set` accepts reads back through `config get` as
/// written, when written the way it reads back (`written_as_read`).
pub proof fn lemma_every_key_round_trips(
    old: FileConfig,
    new: FileConfig,
    key: Seq<char>,
    value: Seq<char>,
    r: Result<(), String>,
)
    requires
        written_as_read(key, value),
        set_effect(old, new, key, value, r),
    ensures
        r is Ok,
        new.spec_get(key) == Some(value),
{
    reveal_keys();
    if is_text_key(key) {
        lemma_text_setting_round_trips(old, new, key, value, r);
    } else if key == "listener_port"@ || key == "max_concurrent_downloads"@ || key
        == "search_timeout"@ {
        let n = choose|n: nat| n <= number_limit(key) && value == decimal(n);
        lemma_number_setting_round_trips(old, new, key, n, r);
    } else if key == "disable_listener"@ {
        let b = value == bool_text(true);
        lemma_flag_round_trips(old, new, b, r);
    } else {
        let ds = choose|ds: Seq<Seq<char>>|
            ds.len() > 0 && (forall|i: int|
                0 <= i < ds.len() ==> (#[trigger] ds[i]).len() > 0 && trim(ds[i]) == ds[i]
                    && lacks(ds[i], ',')) && trim(value) == value && value == join_seq(ds, ","@);
        lemma_shared_dirs_read_back_as_written(old, new, ds, r);
    }
}

/// Everything a one-off search run needs, gathered in one place.
pub struct SearchConfig {
    pub username: String,
    pub password: String,
    pub server_host: String,
    pub server_port: u16,
    pub enable_listener: bool,
    pub listener_port: u32,
    pub query: String,
    pub timeout: u64,
    pub download_dir: String,
    pub verbose: u8,
    pub max_concurrent_downloads: usize,
}

} // verus!

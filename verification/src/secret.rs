//! Where the password comes from, and an in-memory password store.
//!
//! A password is taken from the command line (or its environment variable)
//! first, then from the keychain under the account's name, then from the
//! output of `password_cmd`. The keychain and the command are the caller's
//! to consult: each step here says which source to ask next, and the next
//! step takes its answer.

use crate::text::{owned, str_eq};
use vstd::prelude::*;

verus! {

/// What to do next to find the password.
#[derive(Debug, PartialEq, Eq)]
pub enum PasswordStep {
    /// This is the password.
    Found(String),
    /// Ask the keychain for this account's password.
    AskKeychain(String),
    /// Run this command and take what it prints.
    RunCommand(String),
    /// No source has one: show the login screen.
    Missing,
}

/// The first step: a password given on the command line wins; else the
/// keychain is asked when the account is known; else the command is run
/// when there is one.
pub fn resolve_password(
    cli_password: Option<&str>,
    username: Option<&str>,
    password_cmd: Option<&str>,
) -> (r: PasswordStep)
    ensures
        match cli_password {
            Some(p) => r matches PasswordStep::Found(x) && x@ == p@,
            None => match username {
                Some(u) => r matches PasswordStep::AskKeychain(a) && a@ == u@,
                None => match password_cmd {
                    Some(c) => r matches PasswordStep::RunCommand(x) && x@ == c@,
                    None => r == PasswordStep::Missing,
                },
            },
        },
{
    match cli_password {
        Some(p) => PasswordStep::Found(owned(p)),
        None => match username {
            Some(u) => PasswordStep::AskKeychain(owned(u)),
            None => match password_cmd {
                Some(c) => PasswordStep::RunCommand(owned(c)),
                None => PasswordStep::Missing,
            },
        },
    }
}

/// The step after asking the keychain: what it found (a keychain that
/// fails counts as having nothing, so headless machines still reach the
/// command); else the command when there is one.
pub fn after_keychain(found: Option<String>, password_cmd: Option<&str>) -> (r: PasswordStep)
    ensures
        match found {
            Some(p) => r == PasswordStep::Found(p),
            None => match password_cmd {
                Some(c) => r matches PasswordStep::RunCommand(x) && x@ == c@,
                None => r == PasswordStep::Missing,
            },
        },
{
    match found {
        Some(p) => PasswordStep::Found(p),
        None => match password_cmd {
            Some(c) => PasswordStep::RunCommand(owned(c)),
            None => PasswordStep::Missing,
        },
    }
}

/// `s` without its trailing carriage returns and line feeds.
pub open spec fn without_line_ends(s: Seq<char>) -> Seq<char>
    decreases s.len(),
{
    if s.len() > 0 && (s.last() == '\r' || s.last() == '\n') {
        without_line_ends(s.drop_last())
    } else {
        s
    }
}

/// The password a `password_cmd` run gives: what it printed without
/// trailing line ends, when it succeeded and that is not empty.
pub fn command_password(succeeded: bool, stdout: &str) -> (r: Option<String>)
    ensures
        match r {
            Some(p) => succeeded && p@ == without_line_ends(stdout@) && p@.len() > 0,
            None => !succeeded || without_line_ends(stdout@).len() == 0,
        },
{
    if !succeeded {
        return None;
    }
    let mut j = stdout.unicode_len();
    assert(stdout@.take(j as int) =~= stdout@);
    while j > 0 && (stdout.get_char(j - 1) == '\r' || stdout.get_char(j - 1) == '\n')
        invariant
            j <= stdout@.len(),
            without_line_ends(stdout@) == without_line_ends(stdout@.take(j as int)),
        decreases j,
    {
        assert(stdout@.take(j as int).drop_last() =~= stdout@.take(j - 1));
        j = j - 1;
    }
    if j == 0 {
        assert(stdout@.take(0) =~= Seq::<char>::empty());
        return None;
    }
    let password = owned(stdout.substring_char(0, j));
    assert(password@ =~= stdout@.take(j as int));
    Some(password)
}

/// Passwords kept in memory, by account, for running without a keychain.
pub struct MemoryStore {
    secrets: Vec<(String, String)>,
    /// Answer every read as if there were no secret service at all.
    fail: bool,
}

/// Accounts and passwords as values.
pub open spec fn pairs_view(v: Seq<(String, String)>) -> Seq<(Seq<char>, Seq<char>)> {
    v.map_values(|e: (String, String)| (e.0@, e.1@))
}

/// Whether no account appears twice.
pub open spec fn accounts_distinct(v: Seq<(Seq<char>, Seq<char>)>) -> bool {
    forall|i: int, j: int| 0 <= i < j < v.len() ==> v[i].0 != v[j].0
}

/// The password each account has.
pub open spec fn as_map(v: Seq<(Seq<char>, Seq<char>)>) -> Map<Seq<char>, Seq<char>> {
    Map::new(
        |u: Seq<char>| exists|i: int| 0 <= i < v.len() && v[i].0 == u,
        |u: Seq<char>| v[choose|i: int| 0 <= i < v.len() && v[i].0 == u].1,
    )
}

impl MemoryStore {
    /// The password each account has.
    pub closed spec fn passwords(self) -> Map<Seq<char>, Seq<char>> {
        as_map(pairs_view(self.secrets@))
    }

    /// Whether reads fail.
    pub closed spec fn fails(self) -> bool {
        self.fail
    }

    /// The store's own rule: no account twice.
    #[verifier::type_invariant]
    spec fn wf(self) -> bool {
        accounts_distinct(pairs_view(self.secrets@))
    }

    /// An empty store whose reads work, or fail when `fail` is set.
    pub fn new(fail: bool) -> (r: Self)
        ensures
            r.passwords() == Map::<Seq<char>, Seq<char>>::empty(),
            r.fails() == fail,
    {
        let r = MemoryStore { secrets: Vec::new(), fail };
        assert(r.passwords() =~= Map::<Seq<char>, Seq<char>>::empty());
        r
    }

    fn find(&self, username: &str) -> (r: Option<usize>)
        ensures
            match r {
                Some(i) => i < self.secrets@.len() && self.secrets@[i as int].0@ == username@,
                None => forall|i: int|
                    0 <= i < self.secrets@.len() ==> self.secrets@[i].0@ != username@,
            },
    {
        let n = self.secrets.len();
        let mut i: usize = 0;
        while i < n
            invariant
                n == self.secrets@.len(),
                i <= n,
                forall|k: int| 0 <= k < i ==> self.secrets@[k].0@ != username@,
            decreases n - i,
        {
            if str_eq(self.secrets[i].0.as_str(), username) {
                return Some(i);
            }
            i = i + 1;
        }
        None
    }

    /// Whether `r` is what reading `username`'s password gives: an error
    /// when reads fail, else the password kept, if any.
    pub open spec fn read_gives(self, username: Seq<char>, r: Result<Option<String>, String>) -> bool {
        &&& self.fails() ==> (r matches Err(e) && e@ == "no secret service"@)
        &&& !self.fails() ==> match r {
            Ok(Some(p)) => self.passwords().dom().contains(username) && self.passwords()[username]
                == p@,
            Ok(None) => !self.passwords().dom().contains(username),
            Err(_) => false,
        }
    }

    /// The password kept for `username`, if any; an error when reads fail.
    pub fn get(&self, username: &str) -> (r: Result<Option<String>, String>)
        ensures
            self.read_gives(username@, r),
    {
        proof {
            use_type_invariant(self);
        }
        if self.fail {
            return Err(owned("no secret service"));
        }
        let ghost v = pairs_view(self.secrets@);
        match self.find(username) {
            Some(i) => {
                proof {
                    assert(v[i as int].0 == username@);
                    let c = choose|c: int| 0 <= c < v.len() && v[c].0 == username@;
                    assert(c == i);
                }
                Ok(Some(self.secrets[i].1.clone()))
            },
            None => {
                assert forall|k: int| 0 <= k < v.len() implies v[k].0 != username@ by {
                    assert(v[k].0 == self.secrets@[k].0@);
                }
                Ok(None)
            },
        }
    }

    /// Keeps `password` for `username`, replacing what was kept.
    pub fn set(&mut self, username: &str, password: &str)
        ensures
            final(self).fails() == old(self).fails(),
            final(self).passwords() == old(self).passwords().insert(username@, password@),
    {
        proof {
            use_type_invariant(&*self);
        }
        let ghost v = pairs_view(self.secrets@);
        let entry = (owned(username), owned(password));
        let found = self.find(username);
        let mut secrets: Vec<(String, String)> = Vec::new();
        std::mem::swap(&mut secrets, &mut self.secrets);
        match found {
            Some(i) => {
                secrets.set(i, entry);
                proof {
                    let w = pairs_view(secrets@);
                    assert(w =~= v.update(i as int, (username@, password@)));
                    assert forall|k: int| 0 <= k < w.len() implies #[trigger] w[k].0 == v[k].0 by {}
                    assert(as_map(w) =~= as_map(v).insert(username@, password@)) by {
                        assert forall|u: Seq<char>| #[trigger] as_map(w).dom().contains(u) <==> as_map(v).insert(username@, password@).dom().contains(u) by {
                            if u == username@ {
                                assert(w[i as int].0 == u);
                            } else if as_map(v).dom().contains(u) {
                                let k = choose|k: int| 0 <= k < v.len() && v[k].0 == u;
                                assert(w[k].0 == u);
                            } else if as_map(w).dom().contains(u) {
                                let k = choose|k: int| 0 <= k < w.len() && w[k].0 == u;
                                assert(v[k].0 == u);
                            }
                        }
                        assert forall|u: Seq<char>| #[trigger] as_map(w).dom().contains(u) implies as_map(w)[u] == as_map(v).insert(username@, password@)[u] by {
                            let k = choose|k: int| 0 <= k < w.len() && w[k].0 == u;
                            if u == username@ {
                                if k != i {
                                    assert(w[k].0 == v[k].0);
                                    if k < i {
                                        assert(v[k].0 != v[i as int].0);
                                    } else {
                                        assert(v[i as int].0 != v[k].0);
                                    }
                                }
                            } else {
                                assert(v[k].0 == u);
                                let c = choose|c: int| 0 <= c < v.len() && v[c].0 == u;
                                assert(c == k);
                            }
                        }
                    }
                }
            },
            None => {
                secrets.push(entry);
                proof {
                    let w = pairs_view(secrets@);
                    assert(w =~= v.push((username@, password@)));
                    assert forall|k: int| 0 <= k < v.len() implies v[k].0 != username@ by {
                        assert(v[k].0 == old(self).secrets@[k].0@);
                    }
                    assert(as_map(w) =~= as_map(v).insert(username@, password@)) by {
                        assert forall|u: Seq<char>| #[trigger] as_map(w).dom().contains(u) <==> as_map(v).insert(username@, password@).dom().contains(u) by {
                            if u == username@ {
                                assert(w[v.len() as int].0 == u);
                            } else if as_map(v).dom().contains(u) {
                                let k = choose|k: int| 0 <= k < v.len() && v[k].0 == u;
                                assert(w[k].0 == u);
                            }
                        }
                        assert forall|u: Seq<char>| #[trigger] as_map(w).dom().contains(u) implies as_map(w)[u] == as_map(v).insert(username@, password@)[u] by {
                            let k = choose|k: int| 0 <= k < w.len() && w[k].0 == u;
                            if u == username@ {
                                assert(k == v.len());
                            } else {
                                assert(v[k].0 == u);
                                let c = choose|c: int| 0 <= c < v.len() && v[c].0 == u;
                                assert(c == k);
                            }
                        }
                    }
                }
            },
        }
        assert(accounts_distinct(pairs_view(secrets@))) by {
            let w = pairs_view(secrets@);
            assert forall|a: int, b: int| 0 <= a < b < w.len() implies w[a].0 != w[b].0 by {
                if found is Some {
                    let i = found->0 as int;
                    if a != i && b != i {
                        assert(w[a] == v[a] && w[b] == v[b]);
                    } else if a == i {
                        assert(w[b] == v[b]);
                        assert(w[a].0 == username@ && v[a].0 == username@);
                    } else {
                        assert(w[a] == v[a]);
                        assert(w[b].0 == username@ && v[b].0 == username@);
                    }
                } else {
                    if b < v.len() {
                        assert(w[a] == v[a] && w[b] == v[b]);
                    } else {
                        assert(w[a] == v[a]);
                        assert(v[a].0 == old(self).secrets@[a].0@);
                    }
                }
            }
        }
        self.secrets = secrets;
    }

    /// Forgets `username`'s password; forgetting what is not kept is fine.
    pub fn delete(&mut self, username: &str)
        ensures
            final(self).fails() == old(self).fails(),
            final(self).passwords() == old(self).passwords().remove(username@),
    {
        proof {
            use_type_invariant(&*self);
        }
        let ghost v = pairs_view(self.secrets@);
        let found = self.find(username);
        let mut secrets: Vec<(String, String)> = Vec::new();
        std::mem::swap(&mut secrets, &mut self.secrets);
        match found {
            Some(i) => {
                secrets.remove(i);
                proof {
                    let w = pairs_view(secrets@);
                    assert(w =~= v.remove(i as int));
                    assert(as_map(w) =~= as_map(v).remove(username@)) by {
                        assert forall|u: Seq<char>| #[trigger] as_map(w).dom().contains(u) <==> as_map(v).remove(username@).dom().contains(u) by {
                            if as_map(w).dom().contains(u) {
                                let k = choose|k: int| 0 <= k < w.len() && w[k].0 == u;
                                if k < i {
                                    assert(v[k].0 == u);
                                    assert(v[k].0 != v[i as int].0);
                                } else {
                                    assert(v[k + 1].0 == u);
                                    assert(v[i as int].0 != v[k + 1].0);
                                }
                                assert(as_map(v).dom().contains(u));
                            }
                            if u != username@ && as_map(v).dom().contains(u) {
                                let k = choose|k: int| 0 <= k < v.len() && v[k].0 == u;
                                if k < i {
                                    assert(w[k].0 == u);
                                } else {
                                    assert(k != i);
                                    assert(w[k - 1].0 == u);
                                }
                            }
                        }
                        assert forall|u: Seq<char>| #[trigger] as_map(w).dom().contains(u) implies as_map(w)[u] == as_map(v).remove(username@)[u] by {
                            let k = choose|k: int| 0 <= k < w.len() && w[k].0 == u;
                            let j = if k < i { k } else { k + 1 };
                            assert(v[j].0 == u);
                            let c = choose|c: int| 0 <= c < v.len() && v[c].0 == u;
                            assert(c == j);
                        }
                    }
                }
            },
            None => {
                proof {
                    assert forall|k: int| 0 <= k < v.len() implies v[k].0 != username@ by {
                        assert(v[k].0 == old(self).secrets@[k].0@);
                    }
                    assert(as_map(v) =~= as_map(v).remove(username@));
                }
            },
        }
        assert(accounts_distinct(pairs_view(secrets@))) by {
            let w = pairs_view(secrets@);
            assert forall|a: int, b: int| 0 <= a < b < w.len() implies w[a].0 != w[b].0 by {
                if found is Some {
                    let i = found->0 as int;
                    let a0 = if a < i { a } else { a + 1 };
                    let b0 = if b < i { b } else { b + 1 };
                    assert(w[a] == v[a0] && w[b] == v[b0]);
                } else {
                    assert(w[a] == v[a] && w[b] == v[b]);
                }
            }
        }
        self.secrets = secrets;
    }
}

/// A password kept for an account is what a read of that account gives
/// back, whatever was kept before, while reads work.
pub proof fn lemma_kept_password_is_read_back(
    before: MemoryStore,
    after: MemoryStore,
    username: Seq<char>,
    password: Seq<char>,
    r: Result<Option<String>, String>,
)
    requires
        after.passwords() == before.passwords().insert(username, password),
        !after.fails(),
        after.read_gives(username, r),
    ensures
        r matches Ok(Some(p)) && p@ == password,
{
}

/// A forgotten account reads as having no password, while reads work.
pub proof fn lemma_forgotten_password_reads_as_none(
    before: MemoryStore,
    after: MemoryStore,
    username: Seq<char>,
    r: Result<Option<String>, String>,
)
    requires
        after.passwords() == before.passwords().remove(username),
        !after.fails(),
        after.read_gives(username, r),
    ensures
        r matches Ok(None),
{
}

} // verus!

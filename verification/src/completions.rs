//! Where tab completion goes for each shell, and the one line each rc file
//! gets. Installing means putting the script where the shell already looks,
//! which is enough on its own only for fish; bash and zsh each get one
//! `source` line appended to their rc file, marked so that uninstalling
//! takes back exactly what was added and nothing else.

use crate::cli::Shell;
use crate::output::{CliError, CliResult, CompletionRecord};
use crate::paths::{join_path, joined};
use crate::text::{join_seq, join_strings, lacks, lemma_split_without, owned, split_char, split_on, str_eq, views};
use vstd::prelude::*;

verus! {

/// The command being completed, and the name its scripts are written as.
pub open spec fn bin_name() -> Seq<char> {
    "soulseek-rs"@
}

/// What every line written into an rc file ends with, and the only thing
/// uninstalling deletes from one.
pub open spec fn marker() -> Seq<char> {
    "# soulseek-rs completions"@
}

/// The directories the install locations hang off.
#[derive(Debug, Clone, PartialEq, Eq)]
pub struct Dirs {
    pub home: String,
    pub data: String,
    pub config: String,
}

/// An XDG base directory: the variable's value where it is set and not
/// empty, else `fallback` under the home folder.
pub open spec fn xdg_dir(value: Option<Seq<char>>, home: Seq<char>, fallback: Seq<char>) -> Seq<char> {
    match value {
        Some(v) => if v.len() > 0 {
            v
        } else {
            joined(home, fallback)
        },
        None => joined(home, fallback),
    }
}

/// Resolves an XDG base directory (see `xdg_dir`).
pub fn xdg(value: Option<&str>, home: &str, fallback: &str) -> (r: String)
    ensures
        r@ == xdg_dir(
            match value {
                Some(v) => Some(v@),
                None => None,
            },
            home@,
            fallback@,
        ),
{
    match value {
        Some(v) => if v.unicode_len() > 0 {
            owned(v)
        } else {
            join_path(home, fallback)
        },
        None => join_path(home, fallback),
    }
}

impl Dirs {
    /// The home folder and the XDG data and config folders (shells follow
    /// the XDG layout on every platform); a usage error without a home.
    pub fn detect(home: Option<String>, xdg_data: Option<&str>, xdg_config: Option<&str>) -> (r:
        CliResult<Dirs>)
        ensures
            match home {
                None => r matches Err(e) && e.exit == crate::output::Exit::Usage && e.message@
                    == "cannot find your home directory"@,
                Some(h) => r matches Ok(d) && d.home == h && d.data@ == xdg_dir(
                    match xdg_data {
                        Some(v) => Some(v@),
                        None => None,
                    },
                    h@,
                    ".local/share"@,
                ) && d.config@ == xdg_dir(
                    match xdg_config {
                        Some(v) => Some(v@),
                        None => None,
                    },
                    h@,
                    ".config"@,
                ),
            },
    {
        match home {
            None => Err(CliError::usage("cannot find your home directory")),
            Some(h) => {
                let data = xdg(xdg_data, h.as_str(), ".local/share");
                let config = xdg(xdg_config, h.as_str(), ".config");
                Ok(Dirs { home: h, data, config })
            },
        }
    }
}

/// One shell's completion script, and the rc file that has to load it.
#[derive(Debug, Clone, PartialEq, Eq)]
pub struct Target {
    pub shell: Shell,
    pub script: String,
    /// None for fish, whose completions folder is read without asking.
    pub rc: Option<String>,
}

/// A shell's name.
pub open spec fn shell_name(shell: Shell) -> Seq<char> {
    match shell {
        Shell::Bash => "bash"@,
        Shell::Zsh => "zsh"@,
        Shell::Fish => "fish"@,
    }
}

/// The rc file interactive bash reads: `.bashrc`, except where only the
/// login file `.bash_profile` exists, the usual macOS shape.
pub open spec fn bash_rc_file(home: Seq<char>, login_file_only: bool) -> Seq<char> {
    if login_file_only {
        joined(home, ".bash_profile"@)
    } else {
        joined(home, ".bashrc"@)
    }
}

/// Where each shell looks: bash and zsh read a per-user folder that nothing
/// puts on their search path, hence their rc line; fish reads its own.
pub open spec fn target_of(shell: Shell, dirs: Dirs, login_file_only: bool) -> (Seq<char>, Option<Seq<char>>) {
    match shell {
        Shell::Bash => (
            joined(joined(dirs.data@, "bash-completion/completions"@), bin_name()),
            Some(bash_rc_file(dirs.home@, login_file_only)),
        ),
        Shell::Zsh => (
            joined(joined(dirs.data@, "zsh/site-functions"@), "_"@ + bin_name()),
            Some(joined(dirs.home@, ".zshrc"@)),
        ),
        Shell::Fish => (
            joined(joined(dirs.config@, "fish/completions"@), bin_name() + ".fish"@),
            None,
        ),
    }
}

/// Where `shell`'s script goes and which rc file loads it (see
/// `target_of`); `login_file_only` says whether the home folder has a
/// `.bash_profile` but no `.bashrc`.
pub fn target(shell: Shell, dirs: &Dirs, login_file_only: bool) -> (r: Target)
    ensures
        r.shell == shell,
        (r.script@, match r.rc {
            Some(p) => Some(p@),
            None => None,
        }) == target_of(shell, *dirs, login_file_only),
{
    proof {
        reveal_strlit("soulseek-rs");
        reveal_strlit("_soulseek-rs");
        reveal_strlit("soulseek-rs.fish");
        reveal_strlit("_");
        reveal_strlit(".fish");
        assert("_soulseek-rs"@ =~= "_"@ + "soulseek-rs"@);
        assert("soulseek-rs.fish"@ =~= "soulseek-rs"@ + ".fish"@);
    }
    match shell {
        Shell::Bash => {
            let script = join_path(
                join_path(dirs.data.as_str(), "bash-completion/completions").as_str(),
                "soulseek-rs",
            );
            let rc = if login_file_only {
                join_path(dirs.home.as_str(), ".bash_profile")
            } else {
                join_path(dirs.home.as_str(), ".bashrc")
            };
            Target { shell, script, rc: Some(rc) }
        },
        Shell::Zsh => {
            let script = join_path(
                join_path(dirs.data.as_str(), "zsh/site-functions").as_str(),
                "_soulseek-rs",
            );
            let rc = join_path(dirs.home.as_str(), ".zshrc");
            Target { shell, script, rc: Some(rc) }
        },
        Shell::Fish => {
            let script = join_path(
                join_path(dirs.config.as_str(), "fish/completions").as_str(),
                "soulseek-rs.fish",
            );
            Target { shell, script, rc: None }
        },
    }
}

/// Whether `s` ends with `suffix`.
pub open spec fn ends_with(s: Seq<char>, suffix: Seq<char>) -> bool {
    s.len() >= suffix.len() && s.subrange(s.len() - suffix.len(), s.len() as int) == suffix
}

fn str_ends_with(s: &str, suffix: &str) -> (r: bool)
    ensures
        r == ends_with(s@, suffix@),
{
    let n = s.unicode_len();
    let m = suffix.unicode_len();
    if n < m {
        return false;
    }
    let tail = s.substring_char(n - m, n);
    str_eq(tail, suffix)
}

/// The shells in use here: one counts when it left configuration behind
/// (`.bashrc` or `.bash_profile`, `.zshrc`, a fish config folder) or when it
/// is the login shell, in the order bash, zsh, fish.
pub open spec fn detected_shells(
    login_shell: Option<Seq<char>>,
    bash_files: bool,
    zshrc: bool,
    fish_dir: bool,
) -> Seq<Shell> {
    let running = |name: Seq<char>|
        match login_shell {
            Some(p) => ends_with(p, name),
            None => false,
        };
    let b = if bash_files || running("bash"@) {
        seq![Shell::Bash]
    } else {
        Seq::empty()
    };
    let z = if zshrc || running("zsh"@) {
        seq![Shell::Zsh]
    } else {
        Seq::empty()
    };
    let f = if fish_dir || running("fish"@) {
        seq![Shell::Fish]
    } else {
        Seq::empty()
    };
    b + z + f
}

/// The shells in use here (see `detected_shells`); `bash_files` says
/// whether `.bashrc` or `.bash_profile` exists.
pub fn detected(login_shell: Option<&str>, bash_files: bool, zshrc: bool, fish_dir: bool) -> (r:
    Vec<Shell>)
    ensures
        r@ == detected_shells(
            match login_shell {
                Some(p) => Some(p@),
                None => None,
            },
            bash_files,
            zshrc,
            fish_dir,
        ),
{
    let (bash, zsh, fish) = match login_shell {
        Some(p) => (str_ends_with(p, "bash"), str_ends_with(p, "zsh"), str_ends_with(p, "fish")),
        None => (false, false, false),
    };
    let mut r: Vec<Shell> = Vec::new();
    if bash_files || bash {
        r.push(Shell::Bash);
    }
    if zshrc || zsh {
        r.push(Shell::Zsh);
    }
    if fish_dir || fish {
        r.push(Shell::Fish);
    }
    let ghost want = detected_shells(
        match login_shell {
            Some(p) => Some(p@),
            None => None,
        },
        bash_files,
        zshrc,
        fish_dir,
    );
    assert(r@ =~= want);
    r
}

/// The shells to act on: those named, or else those in use here; none in
/// use is the no-results verdict.
pub fn targets(
    named: &Vec<Shell>,
    dirs: &Dirs,
    login_shell: Option<&str>,
    bash_files: bool,
    login_file_only: bool,
    zshrc: bool,
    fish_dir: bool,
) -> (r: CliResult<Vec<Target>>)
    ensures
        ({
            let shells = if named@.len() > 0 {
                named@
            } else {
                detected_shells(
                    match login_shell {
                        Some(p) => Some(p@),
                        None => None,
                    },
                    bash_files,
                    zshrc,
                    fish_dir,
                )
            };
            if shells.len() == 0 {
                r matches Err(e) && e.exit == crate::output::Exit::NoResults && e.message@
                    == "no bash, zsh, or fish setup found in your home directory; name one with --shell"@
            } else {
                r matches Ok(ts) && ts@.len() == shells.len() && forall|i: int|
                    0 <= i < ts@.len() ==> {
                        let t = #[trigger] ts@[i];
                        &&& t.shell == shells[i]
                        &&& (t.script@, match t.rc {
                            Some(p) => Some(p@),
                            None => None,
                        }) == target_of(shells[i], *dirs, login_file_only)
                    }
            }
        }),
{
    let shells = if named.len() > 0 {
        named.clone()
    } else {
        detected(login_shell, bash_files, zshrc, fish_dir)
    };
    assert(named.len() > 0 ==> shells@ == named@);
    if shells.len() == 0 {
        return Err(
            CliError::no_results(
                "no bash, zsh, or fish setup found in your home directory; name one with --shell",
            ),
        );
    }
    let n = shells.len();
    let mut out: Vec<Target> = Vec::new();
    let mut i: usize = 0;
    while i < n
        invariant
            n == shells@.len(),
            i <= n,
            out@.len() == i,
            forall|k: int|
                0 <= k < i ==> {
                    let t = #[trigger] out@[k];
                    &&& t.shell == shells@[k]
                    &&& (t.script@, match t.rc {
                        Some(p) => Some(p@),
                        None => None,
                    }) == target_of(shells@[k], *dirs, login_file_only)
                },
        decreases n - i,
    {
        let t = target(shells[i], dirs, login_file_only);
        out.push(t);
        i = i + 1;
    }
    Ok(out)
}

/// The line that loads a script from an rc file, marked as this command's.
pub open spec fn source_line_of(script: Seq<char>) -> Seq<char> {
    "source \""@ + script + "\" "@ + marker()
}

impl Target {
    /// The line that loads this script from an rc file.
    pub fn source_line(&self) -> (r: String)
        ensures
            r@ == source_line_of(self.script@),
    {
        let mut r = owned("source \"");
        r.append(self.script.as_str());
        r.append("\" ");
        r.append("# soulseek-rs completions");
        r
    }

    /// What happened to this script, as a record.
    pub fn record(&self, action: &str) -> (r: CompletionRecord)
        ensures
            r.shell@ == shell_name(self.shell),
            r.path@ == self.script@,
            r.action@ == action@,
    {
        let shell = match self.shell {
            Shell::Bash => owned("bash"),
            Shell::Zsh => owned("zsh"),
            Shell::Fish => owned("fish"),
        };
        CompletionRecord { shell, path: self.script.clone(), action: owned(action) }
    }
}

/// `l` without one carriage return at its end.
pub open spec fn without_cr(l: Seq<char>) -> Seq<char> {
    if l.len() > 0 && l.last() == '\r' {
        l.drop_last()
    } else {
        l
    }
}

/// The lines of `s` as `str::lines` gives them: cut at each line feed, a
/// carriage return before one dropped, and no empty line after a final
/// line feed.
pub open spec fn lines_of(s: Seq<char>) -> Seq<Seq<char>> {
    let pieces = split_on(s, '\n');
    let body = if pieces.last().len() == 0 {
        pieces.drop_last()
    } else {
        pieces
    };
    Seq::new(
        body.len(),
        |i: int|
            if i < pieces.len() - 1 {
                without_cr(body[i])
            } else {
                body[i]
            },
    )
}

fn drop_cr(l: &str) -> (r: String)
    ensures
        r@ == without_cr(l@),
{
    let n = l.unicode_len();
    if n > 0 && l.get_char(n - 1) == '\r' {
        let r = owned(l.substring_char(0, n - 1));
        assert(r@ =~= l@.drop_last());
        r
    } else {
        owned(l)
    }
}

/// The lines of `s` (see `lines_of`).
pub fn lines(s: &str) -> (r: Vec<String>)
    ensures
        views(r@) == lines_of(s@),
{
    let pieces = split_char(s, '\n');
    proof {
        crate::text::lemma_split_nonempty(s@, '\n');
    }
    let n = pieces.len();
    let ghost ps = split_on(s@, '\n');
    let last_empty = pieces[n - 1].as_str().unicode_len() == 0;
    let count = if last_empty {
        n - 1
    } else {
        n
    };
    let ghost body = if ps.last().len() == 0 {
        ps.drop_last()
    } else {
        ps
    };
    assert(count == body.len());
    let mut out: Vec<String> = Vec::new();
    let mut i: usize = 0;
    while i < count
        invariant
            n == pieces@.len(),
            ps == split_on(s@, '\n'),
            views(pieces@) == ps,
            count == body.len(),
            count <= n,
            body == (if ps.last().len() == 0 {
                ps.drop_last()
            } else {
                ps
            }),
            i <= count,
            views(out@) == lines_of(s@).take(i as int),
        decreases count - i,
    {
        assert(body[i as int] == pieces@[i as int]@);
        assert(lines_of(s@).len() == count);
        let line = if i < n - 1 {
            drop_cr(pieces[i].as_str())
        } else {
            pieces[i].clone()
        };
        assert(line@ == lines_of(s@)[i as int]);
        let ghost before = out@;
        out.push(line);
        assert(views(out@) =~= views(before).push(line@));
        assert(lines_of(s@).take(i + 1) =~= lines_of(s@).take(i as int).push(lines_of(s@)[i as int]));
        i = i + 1;
    }
    assert(lines_of(s@).len() == count);
    assert(lines_of(s@).take(count as int) =~= lines_of(s@));
    out
}

/// What to append to an rc file holding `existing` so that it loads with
/// `line`: nothing when a line of it already is `line`; else the line and a
/// line feed, after a line feed of its own when the file does not end with
/// one.
pub open spec fn rc_addition_of(existing: Seq<char>, line: Seq<char>) -> Option<Seq<char>> {
    if lines_of(existing).contains(line) {
        None
    } else if existing.len() == 0 || existing.last() == '\n' {
        Some(line + "\n"@)
    } else {
        Some("\n"@ + line + "\n"@)
    }
}

/// What to append to an rc file (see `rc_addition_of`).
pub fn rc_addition(existing: &str, line: &str) -> (r: Option<String>)
    ensures
        match r {
            Some(a) => rc_addition_of(existing@, line@) == Some(a@),
            None => rc_addition_of(existing@, line@) is None,
        },
{
    let found = lines(existing);
    let n = found.len();
    let mut i: usize = 0;
    while i < n
        invariant
            n == found@.len(),
            i <= n,
            views(found@) == lines_of(existing@),
            forall|k: int| 0 <= k < i ==> found@[k]@ != line@,
        decreases n - i,
    {
        if str_eq(found[i].as_str(), line) {
            assert(lines_of(existing@)[i as int] == line@);
            return None;
        }
        i = i + 1;
    }
    assert forall|k: int| 0 <= k < lines_of(existing@).len() implies lines_of(existing@)[k]
        != line@ by {
        assert(lines_of(existing@)[k] == found@[k]@);
    }
    let m = existing.unicode_len();
    let mut r = if m == 0 || existing.get_char(m - 1) == '\n' {
        String::new()
    } else {
        owned("\n")
    };
    r.append(line);
    r.append("\n");
    proof {
        if m > 0 {
            assert(existing@.last() == existing@[m - 1]);
        }
    }
    Some(r)
}

/// The lines not marked as this command's, in order.
pub open spec fn unmarked(ls: Seq<Seq<char>>) -> Seq<Seq<char>>
    decreases ls.len(),
{
    if ls.len() == 0 {
        Seq::empty()
    } else {
        let r = unmarked(ls.drop_last());
        if ends_with(ls.last(), marker()) {
            r
        } else {
            r.push(ls.last())
        }
    }
}

/// An rc file holding `existing` with only the marked lines taken back:
/// nothing to do when none is marked; else the other lines, verbatim,
/// joined by line feeds and ended by one unless nothing is left.
pub open spec fn rc_without_marked_of(existing: Seq<char>) -> Option<Seq<char>> {
    let ls = lines_of(existing);
    let kept = unmarked(ls);
    if kept.len() == ls.len() {
        None
    } else {
        let j = join_seq(kept, "\n"@);
        Some(
            if j.len() > 0 {
                j + "\n"@
            } else {
                j
            },
        )
    }
}

proof fn lemma_unmarked_len(ls: Seq<Seq<char>>)
    ensures
        unmarked(ls).len() <= ls.len(),
    decreases ls.len(),
{
    if ls.len() > 0 {
        lemma_unmarked_len(ls.drop_last());
    }
}

/// An rc file without the marked lines (see `rc_without_marked_of`).
pub fn rc_without_marked(existing: &str) -> (r: Option<String>)
    ensures
        match r {
            Some(t) => rc_without_marked_of(existing@) == Some(t@),
            None => rc_without_marked_of(existing@) is None,
        },
{
    let found = lines(existing);
    let n = found.len();
    let mut kept: Vec<String> = Vec::new();
    let mut i: usize = 0;
    assert(views(found@).take(0) =~= Seq::<Seq<char>>::empty());
    assert(views(kept@) =~= Seq::<Seq<char>>::empty());
    while i < n
        invariant
            n == found@.len(),
            i <= n,
            views(found@) == lines_of(existing@),
            views(kept@) == unmarked(views(found@).take(i as int)),
        decreases n - i,
    {
        let ghost before = kept@;
        assert(views(found@).take(i + 1).drop_last() =~= views(found@).take(i as int));
        assert(views(found@).take(i + 1).last() == found@[i as int]@);
        proof {
            reveal_strlit("# soulseek-rs completions");
        }
        if !str_ends_with(found[i].as_str(), "# soulseek-rs completions") {
            let line = found[i].clone();
            kept.push(line);
            assert(views(kept@) =~= views(before).push(line@));
        }
        i = i + 1;
    }
    assert(views(found@).take(n as int) =~= views(found@));
    proof {
        lemma_unmarked_len(views(found@));
    }
    if kept.len() == n {
        return None;
    }
    let mut r = join_strings(&kept, "\n");
    if r.as_str().unicode_len() > 0 {
        r.append("\n");
    }
    Some(r)
}

/// Cutting at a separator that joins two texts cuts each of them.
proof fn lemma_split_joined(x: Seq<char>, y: Seq<char>, sep: char)
    ensures
        split_on(x + seq![sep] + y, sep) == split_on(x, sep) + split_on(y, sep),
    decreases y.len(),
{
    let s = x + seq![sep] + y;
    if y.len() == 0 {
        assert(s.drop_last() =~= x);
        assert(s.last() == sep);
        assert(split_on(y, sep) =~= seq![Seq::<char>::empty()]);
        assert(split_on(s, sep) =~= split_on(x, sep) + split_on(y, sep));
    } else {
        let y0 = y.drop_last();
        let c = y.last();
        lemma_split_joined(x, y0, sep);
        crate::text::lemma_split_nonempty(y0, sep);
        assert(s.drop_last() =~= x + seq![sep] + y0);
        assert(s.last() == c);
        let prev = split_on(x, sep) + split_on(y0, sep);
        if c == sep {
            assert(split_on(s, sep) =~= prev.push(Seq::<char>::empty()));
            assert(split_on(y, sep) =~= split_on(y0, sep).push(Seq::<char>::empty()));
            assert(split_on(s, sep) =~= split_on(x, sep) + split_on(y, sep));
        } else {
            let p0 = split_on(y0, sep);
            assert(split_on(y, sep) == p0.update(p0.len() - 1, p0.last().push(c)));
            assert(split_on(s, sep) == prev.update(prev.len() - 1, prev.last().push(c)));
            assert(prev.last() == p0.last());
            assert(split_on(s, sep) =~= split_on(x, sep) + split_on(y, sep));
        }
    }
}

/// A line followed by a line feed, after anything that is empty or ends in
/// a line feed, is one of the lines.
proof fn lemma_appended_line_is_a_line(before: Seq<char>, line: Seq<char>)
    requires
        lacks(line, '\n'),
        !(line.len() > 0 && line.last() == '\r'),
        before.len() == 0 || before.last() == '\n',
    ensures
        lines_of(before + line + seq!['\n']).contains(line),
{
    let t = before + line + seq!['\n'];
    lemma_split_without(line, '\n');
    lemma_split_joined(line, Seq::<char>::empty(), '\n');
    assert(line + seq!['\n'] + Seq::<char>::empty() =~= line + seq!['\n']);
    assert(split_on(Seq::<char>::empty(), '\n') =~= seq![Seq::<char>::empty()]);
    let tail = split_on(line + seq!['\n'], '\n');
    assert(tail =~= seq![line, Seq::<char>::empty()]);
    if before.len() == 0 {
        assert(t =~= line + seq!['\n']);
        assert(without_cr(line) == line);
        assert(lines_of(t)[0] == line);
    } else {
        let b0 = before.drop_last();
        assert(t =~= b0 + seq!['\n'] + (line + seq!['\n']));
        lemma_split_joined(b0, line + seq!['\n'], '\n');
        let head = split_on(b0, '\n');
        let pieces = split_on(t, '\n');
        assert(pieces == head + tail);
        let k = head.len() as int;
        assert(pieces.last().len() == 0);
        assert(pieces.drop_last()[k] == line);
        assert(without_cr(line) == line);
        assert(lines_of(t)[k] == line);
    }
}

/// Installing twice adds one line: once an rc file has what `rc_addition`
/// said to append, a second install appends nothing. (The source line holds
/// no line feed and does not end in a carriage return.)
pub proof fn lemma_installing_twice_adds_one_line(existing: Seq<char>, line: Seq<char>)
    requires
        lacks(line, '\n'),
        !(line.len() > 0 && line.last() == '\r'),
        rc_addition_of(existing, line) is Some,
    ensures
        rc_addition_of(existing + rc_addition_of(existing, line)->0, line) is None,
{
    let a = rc_addition_of(existing, line)->0;
    reveal_strlit("\n");
    assert("\n"@ =~= seq!['\n']);
    if existing.len() == 0 || existing.last() == '\n' {
        assert(existing + a =~= existing + line + seq!['\n']);
        lemma_appended_line_is_a_line(existing, line);
    } else {
        let before = existing + seq!['\n'];
        assert(existing + a =~= before + line + seq!['\n']);
        lemma_appended_line_is_a_line(before, line);
    }
}


/// The pieces of a text that lacks `c` lack it too.
proof fn lemma_pieces_lack(s: Seq<char>, sep: char, c: char)
    requires
        lacks(s, c),
    ensures
        forall|i: int| 0 <= i < split_on(s, sep).len() ==> lacks(#[trigger] split_on(s, sep)[i], c),
    decreases s.len(),
{
    if s.len() > 0 {
        let prev = split_on(s.drop_last(), sep);
        lemma_pieces_lack(s.drop_last(), sep, c);
        crate::text::lemma_split_nonempty(s.drop_last(), sep);
        assert(s.last() == s[s.len() - 1]);
        if s.last() != sep {
            let last = prev.last().push(s.last());
            assert(lacks(prev.last(), c));
            assert(lacks(last, c)) by {
                assert forall|k: int| 0 <= k < last.len() implies last[k] != c by {
                    if k < prev.last().len() {
                        assert(last[k] == prev.last()[k]);
                    }
                }
            }
        }
    }
}

/// Joining a value's own pieces with their separator gives the value back.
proof fn lemma_join_split(s: Seq<char>, sep: char)
    ensures
        join_seq(split_on(s, sep), seq![sep]) == s,
    decreases s.len(),
{
    if s.len() == 0 {
        assert(split_on(s, sep) =~= seq![Seq::<char>::empty()]);
        assert(s =~= Seq::<char>::empty());
    } else {
        let prev = split_on(s.drop_last(), sep);
        lemma_join_split(s.drop_last(), sep);
        crate::text::lemma_split_nonempty(s.drop_last(), sep);
        let pieces = split_on(s, sep);
        if s.last() == sep {
            assert(pieces.drop_last() =~= prev);
            assert(pieces.last() =~= Seq::<char>::empty());
            assert(join_seq(pieces, seq![sep]) =~= s.drop_last() + seq![sep]);
            assert(s =~= s.drop_last() + seq![sep]);
        } else {
            let x = s.last();
            assert(pieces == prev.update(prev.len() - 1, prev.last().push(x)));
            if prev.len() == 1 {
                assert(join_seq(pieces, seq![sep]) =~= prev[0].push(x));
                assert(s =~= s.drop_last().push(x));
            } else {
                assert(pieces.drop_last() =~= prev.drop_last());
                assert(pieces.last() =~= prev.last().push(x));
                assert(join_seq(pieces, seq![sep]) =~= (join_seq(prev.drop_last(), seq![sep]) + seq![sep]
                    + prev.last()).push(x));
                assert(s =~= s.drop_last().push(x));
            }
        }
    }
}

/// The lines of a text that ends in a line feed and holds no carriage
/// return, joined by line feeds and ended by one, are that text.
proof fn lemma_lines_rejoin(s: Seq<char>)
    requires
        s.len() > 0,
        s.last() == '\n',
        lacks(s, '\r'),
    ensures
        join_seq(lines_of(s), seq!['\n']) + seq!['\n'] == s,
{
    let b0 = s.drop_last();
    assert(s =~= b0 + seq!['\n'] + Seq::<char>::empty());
    lemma_split_joined(b0, Seq::<char>::empty(), '\n');
    assert(split_on(Seq::<char>::empty(), '\n') =~= seq![Seq::<char>::empty()]);
    let pieces = split_on(s, '\n');
    let head = split_on(b0, '\n');
    assert(pieces == head.push(Seq::<char>::empty()));
    assert(pieces.drop_last() =~= head);
    assert(lacks(b0, '\r'));
    lemma_pieces_lack(b0, '\n', '\r');
    assert forall|i: int| 0 <= i < head.len() implies without_cr(#[trigger] head[i]) == head[i] by {
        assert(lacks(head[i], '\r'));
        if head[i].len() > 0 {
            assert(head[i].last() == head[i][head[i].len() - 1]);
        }
    }
    assert(lines_of(s) =~= head);
    lemma_join_split(b0, '\n');
}

/// A marked line after others adds nothing to what is unmarked.
proof fn lemma_unmarked_keeps_all(ls: Seq<Seq<char>>)
    requires
        forall|i: int| 0 <= i < ls.len() ==> !ends_with(#[trigger] ls[i], marker()),
    ensures
        unmarked(ls) == ls,
    decreases ls.len(),
{
    if ls.len() > 0 {
        lemma_unmarked_keeps_all(ls.drop_last());
        assert(!ends_with(ls[ls.len() - 1], marker()));
        assert(ls.drop_last().push(ls.last()) =~= ls);
    }
}

/// The lines of a text that is empty or ends in a line feed, with a line
/// and a line feed after it, are its lines and then that line.
proof fn lemma_lines_after_appending(before: Seq<char>, line: Seq<char>)
    requires
        lacks(line, '\n'),
        !(line.len() > 0 && line.last() == '\r'),
        before.len() == 0 || before.last() == '\n',
    ensures
        lines_of(before + line + seq!['\n']) == lines_of(before).push(line),
{
    let t = before + line + seq!['\n'];
    lemma_split_without(line, '\n');
    lemma_split_joined(line, Seq::<char>::empty(), '\n');
    assert(line + seq!['\n'] + Seq::<char>::empty() =~= line + seq!['\n']);
    assert(split_on(Seq::<char>::empty(), '\n') =~= seq![Seq::<char>::empty()]);
    let tail = split_on(line + seq!['\n'], '\n');
    assert(tail =~= seq![line, Seq::<char>::empty()]);
    assert(without_cr(line) == line);
    if before.len() == 0 {
        assert(t =~= line + seq!['\n']);
        assert(split_on(before, '\n') =~= seq![Seq::<char>::empty()]);
        assert(lines_of(before) =~= Seq::<Seq<char>>::empty());
        assert(lines_of(t) =~= lines_of(before).push(line));
    } else {
        let b0 = before.drop_last();
        assert(t =~= b0 + seq!['\n'] + (line + seq!['\n']));
        lemma_split_joined(b0, line + seq!['\n'], '\n');
        assert(before =~= b0 + seq!['\n'] + Seq::<char>::empty());
        lemma_split_joined(b0, Seq::<char>::empty(), '\n');
        let head = split_on(b0, '\n');
        assert(split_on(t, '\n') == head + tail);
        assert(split_on(before, '\n') == head + seq![Seq::<char>::empty()]);
        assert(lines_of(t) =~= lines_of(before).push(line));
    }
}

/// Uninstalling takes back exactly what installing added: an rc file that
/// is empty or ends in a line feed, holds no carriage return and none of
/// this command's marked lines, gets the source line appended, and removing
/// the marked lines gives the file back as it was. (The source line is one
/// line, marked as ours; a file of one blank line alone is left out, as
/// removing gives it back empty.)
pub proof fn lemma_uninstall_takes_back_the_install(existing: Seq<char>, line: Seq<char>)
    requires
        lacks(line, '\n'),
        !(line.len() > 0 && line.last() == '\r'),
        ends_with(line, marker()),
        existing.len() == 0 || existing.last() == '\n',
        existing != seq!['\n'],
        lacks(existing, '\r'),
        forall|i: int|
            0 <= i < lines_of(existing).len() ==> !ends_with(#[trigger] lines_of(existing)[i], marker()),
    ensures
        rc_addition_of(existing, line) is Some,
        rc_without_marked_of(existing + rc_addition_of(existing, line)->0) == Some(existing),
{
    let ls = lines_of(existing);
    reveal_strlit("\n");
    assert("\n"@ =~= seq!['\n']);
    assert(!ls.contains(line)) by {
        if ls.contains(line) {
            let i = choose|i: int| 0 <= i < ls.len() && ls[i] == line;
            assert(!ends_with(ls[i], marker()));
        }
    }
    let a = rc_addition_of(existing, line)->0;
    assert(a =~= line + seq!['\n']);
    assert(existing + a =~= existing + line + seq!['\n']);
    lemma_lines_after_appending(existing, line);
    let all = lines_of(existing + a);
    assert(all == ls.push(line));
    assert(all.drop_last() =~= ls);
    lemma_unmarked_keeps_all(ls);
    assert(unmarked(all) == ls);
    if existing.len() == 0 {
        assert(split_on(existing, '\n') =~= seq![Seq::<char>::empty()]);
        assert(ls =~= Seq::<Seq<char>>::empty());
        assert(join_seq(ls, "\n"@) =~= existing);
    } else {
        lemma_lines_rejoin(existing);
        let j = join_seq(ls, "\n"@);
        assert(j + seq!['\n'] == existing);
        assert(j.len() > 0) by {
            if j.len() == 0 {
                assert(existing =~= seq!['\n']);
            }
        }
    }
}

} // verus!

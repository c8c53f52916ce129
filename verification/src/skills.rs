//! Where a local coding agent's skill file goes, and what is ours to
//! touch. The skill travels inside the binary and is written out on demand;
//! installing over an older copy is what updating means.

use crate::completions::{xdg, xdg_dir};
use crate::output::{CliError, CliResult, Exit, SkillRecord};
use crate::paths::{join_path, joined};
use crate::text::{contains_str, has_substring, owned, str_eq};
use vstd::prelude::*;

verus! {

/// The line a skill file must hold before uninstalling deletes it.
pub open spec fn frontmatter_name() -> Seq<char> {
    "name: soulseek-rs"@
}

/// A skills folder to write into, labelled by whose it is.
#[derive(Debug, Clone, PartialEq, Eq)]
pub struct Target {
    pub agent: String,
    pub skills: String,
}

impl Target {
    /// The skill's own folder inside the skills folder.
    pub fn dir(&self) -> (r: String)
        ensures
            r@ == joined(self.skills@, "soulseek-rs"@),
    {
        join_path(self.skills.as_str(), "soulseek-rs")
    }

    /// The skill file.
    pub fn file(&self) -> (r: String)
        ensures
            r@ == joined(joined(self.skills@, "soulseek-rs"@), "SKILL.md"@),
    {
        join_path(self.dir().as_str(), "SKILL.md")
    }

    /// What happened to this skill file, as a record.
    pub fn record(&self, action: &str) -> (r: SkillRecord)
        ensures
            r.agent == self.agent,
            r.path@ == joined(joined(self.skills@, "soulseek-rs"@), "SKILL.md"@),
            r.action@ == action@,
    {
        SkillRecord { agent: self.agent.clone(), path: self.file(), action: owned(action) }
    }
}

/// The folder agents keep their configuration in: the XDG one on every
/// platform.
pub fn config_home(xdg_config: Option<&str>, home: &str) -> (r: String)
    ensures
        r@ == xdg_dir(
            match xdg_config {
                Some(v) => Some(v@),
                None => None,
            },
            home@,
            ".config"@,
        ),
{
    xdg(xdg_config, home, ".config")
}

/// The agents on this machine that read a plain skill file, each with its
/// skills folder: opencode when its config folder exists.
pub open spec fn detected_agents(config_home: Seq<char>, opencode: bool) -> Seq<
    (Seq<char>, Seq<char>),
> {
    if opencode {
        seq![("opencode"@, joined(joined(config_home, "opencode"@), "skill"@))]
    } else {
        Seq::empty()
    }
}

/// Targets as agent and folder.
pub open spec fn targets_view(v: Seq<Target>) -> Seq<(Seq<char>, Seq<char>)> {
    v.map_values(|t: Target| (t.agent@, t.skills@))
}

/// The agents found here (see `detected_agents`); `opencode` says whether
/// its folder exists.
pub fn detected(config_home: &str, opencode: bool) -> (r: Vec<Target>)
    ensures
        targets_view(r@) == detected_agents(config_home@, opencode),
{
    let mut r: Vec<Target> = Vec::new();
    if opencode {
        let skills = join_path(join_path(config_home, "opencode").as_str(), "skill");
        r.push(Target { agent: owned("opencode"), skills });
    }
    assert(targets_view(r@) =~= detected_agents(config_home@, opencode));
    r
}

/// The folders named, each as a `custom` target.
pub open spec fn custom_targets(v: Seq<String>) -> Seq<(Seq<char>, Seq<char>)> {
    v.map_values(|d: String| ("custom"@, d@))
}

/// Where to write: the folders named, each a `custom` target; else the
/// agents found here. No home folder, or no agent found, is an error that
/// points at `--dir`.
pub fn targets(
    named: &Vec<String>,
    home: Option<&str>,
    config_home: &str,
    opencode: bool,
) -> (r: CliResult<Vec<Target>>)
    ensures
        named@.len() > 0 ==> (r matches Ok(ts) && targets_view(ts@) == custom_targets(named@)),
        named@.len() == 0 ==> match home {
            None => r matches Err(e) && e.exit == Exit::Usage && e.message@
                == "cannot find your home directory; name a skills directory with --dir"@,
            Some(_) => {
                let found = detected_agents(config_home@, opencode);
                if found.len() == 0 {
                    r matches Err(e) && e.exit == Exit::NoResults && e.message@
                        == "no coding agent found in your home directory; name a skills directory with --dir"@
                } else {
                    r matches Ok(ts) && targets_view(ts@) == found
                }
            },
        },
{
    let n = named.len();
    if n > 0 {
        let mut chosen: Vec<Target> = Vec::new();
        let mut i: usize = 0;
        while i < n
            invariant
                n == named@.len(),
                i <= n,
                targets_view(chosen@) == custom_targets(named@.take(i as int)),
            decreases n - i,
        {
            let t = Target { agent: owned("custom"), skills: named[i].clone() };
            let ghost before = chosen@;
            chosen.push(t);
            assert(targets_view(chosen@) =~= targets_view(before).push(("custom"@, named@[i as int]@)));
            assert(named@.take(i + 1) =~= named@.take(i as int).push(named@[i as int]));
            assert(custom_targets(named@.take(i + 1)) =~= custom_targets(named@.take(i as int)).push(
                ("custom"@, named@[i as int]@),
            ));
            i = i + 1;
        }
        assert(named@.take(n as int) =~= named@);
        return Ok(chosen);
    }
    match home {
        None => Err(
            CliError::usage("cannot find your home directory; name a skills directory with --dir"),
        ),
        Some(_) => {
            let found = detected(config_home, opencode);
            if found.len() == 0 {
                Err(
                    CliError::no_results(
                        "no coding agent found in your home directory; name a skills directory with --dir",
                    ),
                )
            } else {
                Ok(found)
            }
        },
    }
}

/// Whether a skill file holding `contents` is ours to delete: it names
/// itself as this skill.
pub fn ours(contents: &str) -> (r: bool)
    ensures
        r == has_substring(contents@, frontmatter_name()),
{
    contains_str(contents, "name: soulseek-rs")
}

/// What listing says of a skill file that holds `found` (none when it
/// cannot be read), against the skill as shipped: `unchanged`, `outdated`
/// or `absent`.
pub fn list_action(found: Option<&str>, skill: &str) -> (r: &'static str)
    ensures
        r@ == match found {
            Some(f) => if f@ == skill@ {
                "unchanged"@
            } else {
                "outdated"@
            },
            None => "absent"@,
        },
{
    match found {
        Some(f) => if str_eq(f, skill) {
            "unchanged"
        } else {
            "outdated"
        },
        None => "absent",
    }
}

} // verus!

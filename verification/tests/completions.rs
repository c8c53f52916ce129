use soulseek_rs_tui::cli::Shell;
use soulseek_rs_tui::completions::{
    detected, lines, rc_addition, rc_without_marked, target, targets, xdg, Dirs,
};
use soulseek_rs_tui::output::Exit;
use soulseek_rs_tui::skills::{self, list_action, ours};
use std::path::PathBuf;

fn dirs(home: &str) -> Dirs {
    Dirs {
        home: home.to_string(),
        data: format!("{home}/.local/share"),
        config: format!("{home}/.config"),
    }
}

#[test]
fn each_shell_lands_where_it_already_looks() {
    let home = PathBuf::from("/home/me");
    let dirs = dirs("/home/me");
    for (shell, script, rc) in [
        (
            Shell::Bash,
            ".local/share/bash-completion/completions/soulseek-rs",
            Some(".bashrc"),
        ),
        (
            Shell::Zsh,
            ".local/share/zsh/site-functions/_soulseek-rs",
            Some(".zshrc"),
        ),
        // fish scans its own completions directory, so it needs no rc line.
        (Shell::Fish, ".config/fish/completions/soulseek-rs.fish", None),
    ] {
        let target = target(shell, &dirs, false);
        assert_eq!(PathBuf::from(&target.script), home.join(script));
        assert_eq!(target.rc.map(PathBuf::from), rc.map(|file| home.join(file)));
    }
}

#[test]
fn only_shells_this_machine_uses_become_targets() {
    assert!(detected(None, false, false, false).is_empty());
    assert_eq!(detected(Some("/bin/zsh"), false, false, false), [Shell::Zsh]);
    assert_eq!(detected(None, true, false, true), [Shell::Bash, Shell::Fish]);
}

#[test]
fn bash_falls_back_to_the_login_file_when_that_is_all_there_is() {
    let d = dirs("/home/me");
    assert_eq!(target(Shell::Bash, &d, false).rc.as_deref(), Some("/home/me/.bashrc"));
    assert_eq!(
        target(Shell::Bash, &d, true).rc.as_deref(),
        Some("/home/me/.bash_profile")
    );
}

#[test]
fn installing_twice_adds_one_line_and_uninstalling_takes_only_that() {
    let rc = "export EDITOR=vi".to_string();
    let line = target(Shell::Zsh, &dirs("/home/me"), false).source_line();
    assert_eq!(
        line,
        "source \"/home/me/.local/share/zsh/site-functions/_soulseek-rs\" # soulseek-rs completions"
    );

    let added = rc_addition(&rc, &line).expect("a first install adds the line");
    let after = format!("{rc}{added}");
    assert_eq!(after, format!("export EDITOR=vi\n{line}\n"));
    assert_eq!(rc_addition(&after, &line), None, "installing again adds nothing");

    let removed = rc_without_marked(&after).expect("the marked line goes");
    assert_eq!(removed, "export EDITOR=vi\n");
    assert_eq!(rc_without_marked(&removed), None, "nothing left to take back");
}

#[test]
fn an_rc_file_ending_in_a_line_feed_gets_no_extra_one() {
    assert_eq!(rc_addition("a\n", "x").as_deref(), Some("x\n"));
    assert_eq!(rc_addition("", "x").as_deref(), Some("x\n"));
    assert_eq!(rc_addition("x\r\n", "x"), None);
}

#[test]
fn uninstalling_everything_leaves_an_empty_file() {
    assert_eq!(
        rc_without_marked("source \"s\" # soulseek-rs completions\n").as_deref(),
        Some("")
    );
}

#[test]
fn lines_read_like_str_lines() {
    assert_eq!(lines("a\r\nb\n\nc"), vec!["a", "b", "", "c"]);
    assert_eq!(lines("a\n"), vec!["a"]);
    assert!(lines("").is_empty());
    assert_eq!(lines("a\r"), vec!["a\r"]);
}

#[test]
fn xdg_variables_win_when_set() {
    assert_eq!(xdg(Some("/x"), "/home/me", ".config"), "/x");
    assert_eq!(xdg(Some(""), "/home/me", ".config"), "/home/me/.config");
    assert_eq!(xdg(None, "/home/me", ".local/share"), "/home/me/.local/share");
    let d = Dirs::detect(Some("/home/me".to_string()), None, Some("/cfg")).expect("a home");
    assert_eq!(d.config, "/cfg");
    assert_eq!(d.data, "/home/me/.local/share");
    assert_eq!(Dirs::detect(None, None, None).expect_err("no home").exit, Exit::Usage);
}

#[test]
fn no_shell_found_is_the_no_results_verdict() {
    let d = dirs("/home/me");
    let err = targets(&vec![], &d, None, false, false, false, false).expect_err("nothing found");
    assert_eq!(err.exit, Exit::NoResults);
    let named = targets(&vec![Shell::Fish], &d, None, false, false, false, false).expect("named");
    assert_eq!(named.len(), 1);
    assert_eq!(named[0].record("installed").shell, "fish");
}

#[test]
fn only_agents_that_are_installed_become_targets() {
    assert!(skills::detected("/home/me/.config", false).is_empty());
    let found = skills::detected("/home/me/.config", true);
    assert_eq!(found.len(), 1);
    assert_eq!(found[0].skills, "/home/me/.config/opencode/skill");
    assert_eq!(found[0].file(), "/home/me/.config/opencode/skill/soulseek-rs/SKILL.md");
}

#[test]
fn a_file_we_did_not_write_is_never_ours_to_delete() {
    assert!(!ours("---\nname: something-else\n---\n"));
    assert!(ours("---\nname: soulseek-rs\n---\n"));
    assert_eq!(list_action(Some("same"), "same"), "unchanged");
    assert_eq!(list_action(Some("old"), "new"), "outdated");
    assert_eq!(list_action(None, "new"), "absent");
}

#[test]
fn named_skill_folders_are_used_as_they_are() {
    let named = skills::targets(&vec!["/tmp/skills".to_string()], None, "/c", false)
        .expect("named folders");
    assert_eq!(named[0].agent, "custom");
    assert_eq!(
        skills::targets(&vec![], None, "/c", true).expect_err("no home").exit,
        Exit::Usage
    );
    assert_eq!(
        skills::targets(&vec![], Some("/home/me"), "/c", false)
            .expect_err("no agent")
            .exit,
        Exit::NoResults
    );
}

#[test]
fn uninstalling_gives_back_the_rc_file_as_it_was() {
    let line = target(Shell::Bash, &dirs("/home/me"), false).source_line();
    for rc in ["", "export A=1\n", "\n\nalias l=ls\n", "# soulseek-rs\nx\n"] {
        let added = rc_addition(rc, &line).expect("an install adds the line");
        let after = format!("{rc}{added}");
        assert_eq!(rc_without_marked(&after).as_deref(), Some(rc));
    }
    let after = format!("\n{line}\n");
    assert_eq!(rc_without_marked(&after).as_deref(), Some(""));
}

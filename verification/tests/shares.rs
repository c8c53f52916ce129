use soulseek_rs_tui::config::FileConfig;
use soulseek_rs_tui::output::Exit;
use soulseek_rs_tui::store::{shares_add, shares_add_with, shares_remove, ShareChange};
use std::path::PathBuf;

fn config_with(dirs: &[&str]) -> FileConfig {
    let mut c = FileConfig::default();
    c.shared_dirs = Some(dirs.iter().map(|d| d.to_string()).collect());
    c
}

#[test]
fn a_refused_folder_is_a_usage_error_with_the_verdicts_message() {
    let r = shares_add_with(config_with(&[]), "/nope", Err("shared directory does not exist: /nope".into()));
    let e = r.err().expect("refused");
    assert_eq!(e.exit, Exit::Usage);
    assert_eq!(e.message, "shared directory does not exist: /nope");
    let e = shares_add_with(config_with(&[]), " ", Ok(None)).err().expect("refused");
    assert_eq!(e.message, "no folder given");
}

#[test]
fn an_already_shared_folder_is_unchanged_and_a_new_one_is_appended() {
    let ok = Ok(Some(PathBuf::from("/b")));
    assert!(matches!(shares_add_with(config_with(&["/a", "/b"]), "/b", ok.clone()), Ok(ShareChange::Unchanged)));
    match shares_add_with(config_with(&["/a"]), "/b", ok) {
        Ok(ShareChange::Changed(updated, dirs)) => {
            assert_eq!(dirs, vec!["/a".to_string(), "/b".to_string()]);
            assert_eq!(updated.shared_dirs, Some(vec!["/a".to_string(), "/b".to_string()]));
            assert_eq!(updated.shared_dir, None);
        }
        _ => panic!("expected the folder to be added"),
    }
}

#[test]
fn sharing_a_folder_that_is_not_there_is_refused() {
    let e = shares_add(config_with(&[]), "/this/folder/does/not/exist/anywhere").err().expect("refused");
    assert_eq!(e.exit, Exit::Usage);
    let e = shares_remove(config_with(&["/a"]), "/b").err().expect("not shared");
    assert_eq!(e.exit, Exit::NoResults);
}

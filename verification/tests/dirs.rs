use soulseek_rs_tui::directories::{resolve_shared_directory, shared_directory_verdict};
use std::path::PathBuf;

#[test]
fn unset_or_blank_shares_nothing() {
    assert_eq!(resolve_shared_directory(None), Ok(None));
    assert_eq!(resolve_shared_directory(Some("")), Ok(None));
    assert_eq!(resolve_shared_directory(Some("   ")), Ok(None));
}

#[test]
fn an_existing_folder_is_accepted() {
    assert_eq!(resolve_shared_directory(Some(" / ")), Ok(Some(PathBuf::from("/"))));
}

#[test]
fn a_missing_folder_or_a_file_is_refused() {
    assert_eq!(
        shared_directory_verdict("/nope", false, false),
        Err("shared directory does not exist: /nope".to_string())
    );
    assert_eq!(
        shared_directory_verdict("/etc/hosts", true, false),
        Err("shared path is not a directory: /etc/hosts".to_string())
    );
    assert!(resolve_shared_directory(Some("/definitely/not/here/soulseek")).is_err());
}

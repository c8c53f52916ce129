use soulseek_rs_tui::secret::{
    after_keychain, command_password, resolve_password, MemoryStore, PasswordStep,
};

/// Follows the steps the way the program does, with `store` as the keychain
/// and `command` as what running the password command gives.
fn resolve(
    cli: Option<&str>,
    user: Option<&str>,
    cmd: Option<&str>,
    store: &MemoryStore,
    command: (bool, &str),
) -> Option<String> {
    let mut step = resolve_password(cli, user, cmd);
    loop {
        step = match step {
            PasswordStep::Found(p) => return Some(p),
            PasswordStep::Missing => return None,
            PasswordStep::AskKeychain(u) => after_keychain(store.get(&u).ok().flatten(), cmd),
            PasswordStep::RunCommand(_) => return command_password(command.0, command.1),
        }
    }
}

#[test]
fn cli_password_wins_over_everything() {
    let mut store = MemoryStore::new(false);
    store.set("alice", "from-keyring");
    let got = resolve(
        Some("from-cli"),
        Some("alice"),
        Some("echo from-cmd"),
        &store,
        (true, "from-cmd\n"),
    );
    assert_eq!(got.as_deref(), Some("from-cli"));
}

#[test]
fn keyring_used_when_no_cli_password() {
    let mut store = MemoryStore::new(false);
    store.set("alice", "from-keyring");
    let got = resolve(None, Some("alice"), None, &store, (false, ""));
    assert_eq!(got.as_deref(), Some("from-keyring"));
}

#[test]
fn password_cmd_used_when_keyring_has_nothing() {
    let store = MemoryStore::new(false);
    let got = resolve(
        None,
        Some("alice"),
        Some("echo from-cmd"),
        &store,
        (true, "from-cmd\n"),
    );
    assert_eq!(got.as_deref(), Some("from-cmd"));
}

#[test]
fn keyring_failure_falls_through_to_password_cmd() {
    let store = MemoryStore::new(true);
    let got = resolve(
        None,
        Some("alice"),
        Some("echo from-cmd"),
        &store,
        (true, "from-cmd\r\n"),
    );
    assert_eq!(got.as_deref(), Some("from-cmd"));
}

#[test]
fn none_when_no_source_has_a_password() {
    let store = MemoryStore::new(false);
    assert_eq!(resolve(None, Some("alice"), None, &store, (false, "")), None);
}

#[test]
fn a_deleted_password_is_no_longer_resolved() {
    let mut store = MemoryStore::new(false);
    store.set("alice", "from-keyring");
    store.delete("alice");
    assert_eq!(resolve(None, Some("alice"), None, &store, (false, "")), None);
    // Deleting again is not an error: the password is gone either way.
    store.delete("alice");
}

#[test]
fn no_username_means_no_keyring_lookup() {
    assert_eq!(resolve_password(None, None, None), PasswordStep::Missing);
    assert_eq!(
        resolve_password(None, None, Some("pass show x")),
        PasswordStep::RunCommand("pass show x".to_string())
    );
}

#[test]
fn failing_password_cmd_yields_none() {
    assert_eq!(command_password(false, "secret\n"), None);
    assert_eq!(command_password(true, "\n\r\n"), None);
    assert_eq!(command_password(true, "a b\n"), Some("a b".to_string()));
}

#[test]
fn a_failing_store_reports_no_secret_service() {
    let store = MemoryStore::new(true);
    assert_eq!(store.get("alice"), Err("no secret service".to_string()));
}

#[test]
fn setting_again_replaces_the_password_and_leaves_others() {
    let mut store = MemoryStore::new(false);
    store.set("alice", "one");
    store.set("bob", "two");
    store.set("alice", "three");
    assert_eq!(store.get("alice"), Ok(Some("three".to_string())));
    assert_eq!(store.get("bob"), Ok(Some("two".to_string())));
    assert_eq!(store.get("carol"), Ok(None));
}

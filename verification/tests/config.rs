use soulseek_rs_tui::cli::Cli;
use soulseek_rs_tui::config::{
    resolve, resolve_with, FileConfig, DEFAULT_LISTENER_PORT, DEFAULT_MAX_CONCURRENT_DOWNLOADS,
    DEFAULT_SEARCH_TIMEOUT, DEFAULT_SERVER,
};

fn bare_cli() -> Cli {
    Cli::default()
}

#[test]
fn defaults_apply_when_cli_and_file_are_empty() {
    let resolved = resolve(&bare_cli(), &FileConfig::default());
    assert_eq!(resolved.server, DEFAULT_SERVER);
    assert_eq!(resolved.listener_port, DEFAULT_LISTENER_PORT);
    assert_eq!(resolved.max_concurrent_downloads, DEFAULT_MAX_CONCURRENT_DOWNLOADS);
    assert_eq!(resolved.search_timeout, DEFAULT_SEARCH_TIMEOUT);
    assert!(!resolved.disable_listener);
    assert_eq!(resolved.username, None);
}

#[test]
fn default_download_dir_is_a_soulseek_folder_under_downloads() {
    let resolved = resolve(&bare_cli(), &FileConfig::default());
    let path = std::path::Path::new(&resolved.download_dir);
    assert!(path.is_absolute(), "must not rely on ~ expansion");
    assert_eq!(path.file_name().and_then(|n| n.to_str()), Some("Soulseek"));
    assert_eq!(
        path.parent().and_then(|p| p.file_name()).and_then(|n| n.to_str()),
        Some("Downloads")
    );
}

#[test]
fn sharing_defaults_to_the_download_dir() {
    let resolved = resolve(&bare_cli(), &FileConfig::default());
    assert_eq!(resolved.shared_dirs, vec![resolved.download_dir.clone()]);
}

#[test]
fn sharing_follows_a_customized_download_dir() {
    let file = FileConfig { download_dir: Some("/music".into()), ..FileConfig::default() };
    let resolved = resolve(&bare_cli(), &file);
    assert_eq!(resolved.shared_dirs, vec!["/music".to_string()]);
}

#[test]
fn empty_shared_dir_disables_sharing() {
    let file = FileConfig { shared_dir: Some(String::new()), ..FileConfig::default() };
    let resolved = resolve(&bare_cli(), &file);
    assert!(resolved.shared_dirs.is_empty());
}

#[test]
fn empty_shared_dirs_list_disables_sharing() {
    let file = FileConfig { shared_dirs: Some(Vec::new()), ..FileConfig::default() };
    let resolved = resolve(&bare_cli(), &file);
    assert!(resolved.shared_dirs.is_empty());
}

#[test]
fn shared_dirs_list_replaces_the_default_share() {
    let file = FileConfig {
        shared_dirs: Some(vec!["/a".into(), "/b".into()]),
        ..FileConfig::default()
    };
    let resolved = resolve(&bare_cli(), &file);
    assert_eq!(resolved.shared_dirs, vec!["/a".to_string(), "/b".to_string()]);
}

#[test]
fn cli_shared_dir_combines_with_file_list_and_dedupes() {
    let mut cli = bare_cli();
    cli.shared_dir = vec!["/a".into()];
    let file = FileConfig {
        shared_dirs: Some(vec!["/a".into(), "/b".into()]),
        ..FileConfig::default()
    };
    let resolved = resolve(&cli, &file);
    assert_eq!(resolved.shared_dirs, vec!["/a".to_string(), "/b".to_string()]);
}

#[test]
fn repeated_cli_shared_dirs_are_all_kept() {
    let mut cli = bare_cli();
    cli.shared_dir = vec!["/a".into(), "/b".into()];
    let resolved = resolve(&cli, &FileConfig::default());
    assert_eq!(resolved.shared_dirs, vec!["/a".to_string(), "/b".to_string()]);
}

#[test]
fn an_empty_cli_shared_dir_disables_sharing() {
    let mut cli = bare_cli();
    cli.shared_dir = vec![String::new()];
    let resolved = resolve(&cli, &FileConfig::default());
    assert!(resolved.shared_dirs.is_empty());
}

#[test]
fn no_listener_flag_disables_the_listener() {
    let mut cli = bare_cli();
    cli.no_listener = true;
    assert!(resolve(&cli, &FileConfig::default()).disable_listener);
}

#[test]
fn listener_flag_overrides_the_config_file() {
    let file = FileConfig { disable_listener: Some(true), ..FileConfig::default() };
    assert!(resolve(&bare_cli(), &file).disable_listener);

    let mut cli = bare_cli();
    cli.listener = true;
    assert!(!resolve(&cli, &file).disable_listener);
}

#[test]
fn listener_flag_wins_over_no_listener() {
    let mut cli = bare_cli();
    cli.listener = true;
    cli.no_listener = true;
    assert!(!resolve(&cli, &FileConfig::default()).disable_listener);
}

#[test]
fn file_values_override_defaults() {
    let file = FileConfig {
        username: Some("alice".into()),
        server: Some("localhost:2242".into()),
        listener_port: Some(4321),
        disable_listener: Some(true),
        download_dir: Some("/music".into()),
        shared_dir: Some("/shared".into()),
        shared_dirs: None,
        max_concurrent_downloads: Some(2),
        search_timeout: Some(30),
        password_cmd: Some("pass show slsk".into()),
        daemon: Some("nas.local:5030".into()),
        daemon_token: Some("deadbeef".into()),
        wishlist: None,
    };
    let resolved = resolve(&bare_cli(), &file);
    assert_eq!(resolved.username.as_deref(), Some("alice"));
    assert_eq!(resolved.server, "localhost:2242");
    assert_eq!(resolved.listener_port, 4321);
    assert!(resolved.disable_listener);
    assert_eq!(resolved.download_dir, "/music");
    assert_eq!(resolved.shared_dirs, vec!["/shared".to_string()]);
    assert_eq!(resolved.daemon.as_deref(), Some("nas.local:5030"));
    assert_eq!(resolved.daemon_token.as_deref(), Some("deadbeef"));
    assert_eq!(resolved.max_concurrent_downloads, 2);
    assert_eq!(resolved.search_timeout, 30);
    assert_eq!(resolved.password_cmd.as_deref(), Some("pass show slsk"));
}

#[test]
fn cli_values_override_file_values() {
    let mut cli = bare_cli();
    cli.username = Some("cli-user".into());
    cli.server = Some("cli-server:1".into());
    cli.listener_port = Some(1111);
    cli.download_dir = Some("/cli-dl".into());
    let file = FileConfig {
        username: Some("file-user".into()),
        server: Some("file-server:2".into()),
        listener_port: Some(2222),
        download_dir: Some("/file-dl".into()),
        ..FileConfig::default()
    };
    let resolved = resolve(&cli, &file);
    assert_eq!(resolved.username.as_deref(), Some("cli-user"));
    assert_eq!(resolved.server, "cli-server:1");
    assert_eq!(resolved.listener_port, 1111);
    assert_eq!(resolved.download_dir, "/cli-dl");
}

#[test]
fn every_advertised_key_round_trips_through_get_and_set() {
    let mut config = FileConfig::default();
    for key in FileConfig::KEYS {
        assert!(config.get(key).is_none(), "{key} should start unset");
    }
    for (key, value) in [
        ("username", "alice"),
        ("server", "localhost:2242"),
        ("listener_port", "4321"),
        ("disable_listener", "true"),
        ("download_dir", "/music"),
        ("shared_dirs", "/a,/b"),
        ("max_concurrent_downloads", "3"),
        ("search_timeout", "30"),
        ("password_cmd", "pass show slsk"),
    ] {
        config.set(key, value).expect("should accept");
        assert_eq!(config.get(key).as_deref(), Some(value), "{key} should read back");
    }
    assert_eq!(config.shared_dirs, Some(vec!["/a".into(), "/b".into()]));
}

#[test]
fn an_empty_value_clears_a_setting() {
    let mut config = FileConfig {
        username: Some("alice".into()),
        listener_port: Some(2234),
        ..FileConfig::default()
    };
    config.set("username", "").unwrap();
    config.set("listener_port", "").unwrap();
    assert_eq!(config.username, None);
    assert_eq!(config.listener_port, None);
}

#[test]
fn a_value_of_the_wrong_type_is_rejected_by_name() {
    let mut config = FileConfig::default();
    let error = config.set("listener_port", "not-a-port").unwrap_err();
    assert!(error.contains("listener_port"), "got {error}");
    assert!(config.get("listener_port").is_none(), "must not be set");

    let error = config.set("disable_listener", "maybe").unwrap_err();
    assert!(error.contains("true or false"), "got {error}");
}

#[test]
fn an_unknown_key_lists_the_ones_that_exist() {
    let mut config = FileConfig::default();
    let error = config.set("colour", "blue").unwrap_err();
    assert!(error.contains("unknown setting"), "got {error}");
    assert!(error.contains("username"), "should suggest real keys");
    assert!(config.get("colour").is_none());
}

#[test]
fn setting_the_share_list_drops_the_single_folder_spelling() {
    let mut config = FileConfig { shared_dir: Some("/old".into()), ..FileConfig::default() };
    config.set("shared_dirs", "/new").unwrap();
    assert_eq!(config.shared_dir, None);
    assert_eq!(config.shared_dirs, Some(vec!["/new".to_string()]));
}

#[test]
fn a_wish_is_added_once_however_it_is_spelled() {
    let mut config = FileConfig::default();
    assert!(config.add_wish("Aphex Twin"));
    assert!(!config.add_wish("aphex twin"), "a repeat is not a new wish");
    assert!(!config.add_wish("  Aphex Twin  "), "surrounding space too");
    assert_eq!(config.wishes(), ["Aphex Twin"]);
}

#[test]
fn an_empty_wish_is_refused() {
    let mut config = FileConfig::default();
    assert!(!config.add_wish("   "));
    assert!(config.wishes().is_empty());
}

#[test]
fn removing_a_wish_ignores_case_and_reports_whether_it_was_there() {
    let mut config = FileConfig::default();
    config.add_wish("Boards of Canada");
    assert!(config.remove_wish("BOARDS OF CANADA"));
    assert!(config.wishes().is_empty());
    assert!(!config.remove_wish("never added"));
}

#[test]
fn wishes_keep_the_order_they_were_added_in() {
    let mut config = FileConfig::default();
    for wish in ["first", "second", "third"] {
        config.add_wish(wish);
    }
    config.remove_wish("second");
    assert_eq!(config.wishes(), ["first", "third"]);
}

#[test]
fn a_given_default_folder_is_used_when_nothing_names_one() {
    let resolved = resolve_with(&bare_cli(), &FileConfig::default(), "/home/u/Downloads/Soulseek");
    assert_eq!(resolved.download_dir, "/home/u/Downloads/Soulseek");
    assert_eq!(resolved.shared_dirs, vec!["/home/u/Downloads/Soulseek".to_string()]);
}

#[test]
fn a_number_beyond_its_type_is_refused() {
    let mut config = FileConfig::default();
    assert!(config.set("listener_port", "65536").is_err());
    assert!(config.set("listener_port", "65535").is_ok());
    assert_eq!(config.get("listener_port").as_deref(), Some("65535"));
}

#[test]
fn a_wish_with_surrounding_space_is_stored_trimmed() {
    let mut config = FileConfig::default();
    assert!(config.add_wish("  plaid  "));
    assert_eq!(config.wish("PLAID").map(|w| w.as_str()), Some("plaid"));
}

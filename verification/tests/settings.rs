use soulseek_rs_tui::settings::{AccountInfo, Key, SettingsAction, SettingsMode, SettingsRow, SettingsState};

fn key(code: Key) -> Key {
    code
}

fn type_str(state: &mut SettingsState, text: &str) {
    for c in text.chars() {
        state.handle_key(key(Key::Char(c)));
    }
}

fn account() -> AccountInfo {
    AccountInfo {
        username: "alice".into(),
        shares: "12 files in 3 folders".into(),
        listen_port: Some(2234),
        daemon: None,
    }
}

fn state() -> SettingsState {
    SettingsState::new(account(), "/dl".into(), vec!["/dl".into(), "/music".into()])
}

fn select(state: &mut SettingsState, row: SettingsRow) {
    state.selected = state
        .rows()
        .iter()
        .position(|candidate| *candidate == row)
        .expect("the row is present");
}

#[test]
fn escape_closes_from_navigation() {
    assert_eq!(state().handle_key(key(Key::Esc)), SettingsAction::Close);
}

#[test]
fn adding_a_share_path_applies() {
    let mut s = state();
    s.handle_key(key(Key::Char('a')));
    assert_eq!(s.mode, SettingsMode::AddingShare);
    type_str(&mut s, "/flacs");
    let action = s.handle_key(key(Key::Enter));
    assert_eq!(action, SettingsAction::Apply);
    assert_eq!(s.share_dirs, vec!["/dl", "/music", "/flacs"]);
    assert_eq!(s.mode, SettingsMode::Navigate);
    assert_eq!(s.selected_row(), SettingsRow::Share(2));
}

#[test]
fn adding_a_duplicate_share_is_a_no_op() {
    let mut s = state();
    s.handle_key(key(Key::Char('a')));
    type_str(&mut s, "/music");
    assert_eq!(s.handle_key(key(Key::Enter)), SettingsAction::Nothing);
    assert_eq!(s.share_dirs.len(), 2);
}

#[test]
fn deleting_the_selected_share_applies() {
    let mut s = state();
    select(&mut s, SettingsRow::Share(1));
    let action = s.handle_key(key(Key::Char('d')));
    assert_eq!(action, SettingsAction::Apply);
    assert_eq!(s.share_dirs, vec!["/dl"]);
}

#[test]
fn delete_on_a_row_that_is_not_a_share_does_nothing() {
    let mut s = state();
    select(&mut s, SettingsRow::DownloadDir);
    assert_eq!(s.handle_key(key(Key::Char('d'))), SettingsAction::Nothing);
    assert_eq!(s.share_dirs.len(), 2);
}

#[test]
fn editing_the_download_dir_applies() {
    let mut s = state();
    select(&mut s, SettingsRow::DownloadDir);
    s.handle_key(key(Key::Enter));
    assert_eq!(s.mode, SettingsMode::EditingDownloadDir);
    assert_eq!(s.input, "/dl");
    s.handle_key(key(Key::Backspace));
    s.handle_key(key(Key::Backspace));
    s.handle_key(key(Key::Backspace));
    type_str(&mut s, "/new");
    assert_eq!(s.handle_key(key(Key::Enter)), SettingsAction::Apply);
    assert_eq!(s.download_dir, "/new");
}

#[test]
fn escape_cancels_an_edit_without_applying() {
    let mut s = state();
    select(&mut s, SettingsRow::DownloadDir);
    s.handle_key(key(Key::Enter));
    type_str(&mut s, "junk");
    assert_eq!(s.handle_key(key(Key::Esc)), SettingsAction::Nothing);
    assert_eq!(s.download_dir, "/dl");
    assert_eq!(s.mode, SettingsMode::Navigate);
}

#[test]
fn r_requests_a_reindex() {
    assert_eq!(state().handle_key(key(Key::Char('r'))), SettingsAction::Reindex);
}

#[test]
fn selection_is_clamped_to_the_row_count() {
    let mut s = state();
    for _ in 0..10 {
        s.handle_key(key(Key::Down));
    }
    assert_eq!(s.selected_row(), SettingsRow::Share(1));
    for _ in 0..10 {
        s.handle_key(key(Key::Up));
    }
    assert_eq!(s.selected_row(), SettingsRow::ChangePassword);
}

#[test]
fn a_password_typed_twice_the_same_way_is_changed() {
    let mut s = state();
    select(&mut s, SettingsRow::ChangePassword);
    s.handle_key(key(Key::Enter));
    assert_eq!(s.mode, SettingsMode::NewPassword);
    type_str(&mut s, "hunter2");
    assert_eq!(s.handle_key(key(Key::Enter)), SettingsAction::Nothing);
    assert!(matches!(s.mode, SettingsMode::RepeatPassword(_)));
    assert!(s.input.is_empty());
    type_str(&mut s, "hunter2");
    assert_eq!(s.handle_key(key(Key::Enter)), SettingsAction::ChangePassword("hunter2".into()));
    assert_eq!(s.mode, SettingsMode::Navigate);
}

#[test]
fn a_mistyped_repeat_changes_nothing_and_says_so() {
    let mut s = state();
    select(&mut s, SettingsRow::ChangePassword);
    s.handle_key(key(Key::Enter));
    type_str(&mut s, "hunter2");
    s.handle_key(key(Key::Enter));
    type_str(&mut s, "hunter3");
    assert_eq!(s.handle_key(key(Key::Enter)), SettingsAction::Nothing);
    assert_eq!(s.mode, SettingsMode::Navigate);
    assert!(s.status.is_some());
}

#[test]
fn an_empty_password_is_not_asked_for_twice() {
    let mut s = state();
    select(&mut s, SettingsRow::ChangePassword);
    s.handle_key(key(Key::Enter));
    assert_eq!(s.handle_key(key(Key::Enter)), SettingsAction::Nothing);
    assert_eq!(s.mode, SettingsMode::Navigate);
}

#[test]
fn escape_during_the_repeat_forgets_the_first_entry() {
    let mut s = state();
    select(&mut s, SettingsRow::ChangePassword);
    s.handle_key(key(Key::Enter));
    type_str(&mut s, "hunter2");
    s.handle_key(key(Key::Enter));
    s.handle_key(key(Key::Esc));
    s.handle_key(key(Key::Enter));
    type_str(&mut s, "hunter2");
    assert_eq!(s.handle_key(key(Key::Enter)), SettingsAction::Nothing);
    assert!(matches!(s.mode, SettingsMode::RepeatPassword(_)));
}

#[test]
fn logging_out_is_confirmed_first() {
    let mut s = state();
    select(&mut s, SettingsRow::Logout);
    assert_eq!(s.handle_key(key(Key::Enter)), SettingsAction::Nothing);
    assert_eq!(s.mode, SettingsMode::ConfirmingLogout);
    assert_eq!(s.handle_key(key(Key::Char('y'))), SettingsAction::Logout);
}

#[test]
fn anything_but_yes_cancels_the_logout() {
    let mut s = state();
    select(&mut s, SettingsRow::Logout);
    s.handle_key(key(Key::Enter));
    assert_eq!(s.handle_key(key(Key::Char('n'))), SettingsAction::Nothing);
    assert_eq!(s.mode, SettingsMode::Navigate);
}

#[test]
fn a_daemons_session_offers_no_logout_row() {
    let mut s = SettingsState::new(
        AccountInfo { daemon: Some("127.0.0.1:2245".into()), ..account() },
        "/dl".into(),
        vec!["/music".into()],
    );
    assert_eq!(
        s.rows(),
        vec![SettingsRow::ChangePassword, SettingsRow::DownloadDir, SettingsRow::Share(0)]
    );
    s.handle_key(key(Key::Down));
    assert_eq!(s.selected_row(), SettingsRow::DownloadDir);
    assert!(!s.can_log_out());
}

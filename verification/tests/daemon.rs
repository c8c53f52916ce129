use soulseek_rs_tui::state::PersistedDownload;
use soulseek_rs_tui::daemon::{
    file_limit_plan, incoming_line, open_files_warning, resuming_text, unfinished, History,
    LimitPlan, HISTORY_LIMIT,
    accepts, constant_time_eq, hex_encode, mint_token, socket_path, stored_token, token_path,
    PendingBrowses,
};
use soulseek_rs_tui::proto::{ChatMessageDto, UserMessageDto};
use std::path::PathBuf;

#[test]
fn server_token_comparison_does_not_short_circuit_on_length_or_content() {
    assert!(constant_time_eq("abc", "abc"));
    assert!(!constant_time_eq("abc", "abd"));
    assert!(!constant_time_eq("abc", "abcd"));
    assert!(!constant_time_eq("", "a"));
    assert!(constant_time_eq("", ""));
}

#[test]
fn mod_token_comparison_does_not_short_circuit_on_length_or_content() {
    assert!(constant_time_eq("abc", "abc"));
    assert!(!constant_time_eq("abc", "abd"));
    assert!(!constant_time_eq("abc", "abcd"));
    assert!(!constant_time_eq("", "a"));
    assert!(constant_time_eq("", ""));
}

#[test]
fn a_unix_socket_needs_no_token_but_tcp_does() {
    assert!(accepts("secret", true, None), "socket permissions are the auth");
    assert!(!accepts("secret", false, None), "TCP must demand a token");
}

#[test]
fn a_wrong_token_is_refused_on_every_transport() {
    assert!(!accepts("secret", false, Some("guess")));
    assert!(!accepts("secret", true, Some("guess")), "a token that is offered is always checked");
    assert!(accepts("secret", false, Some("secret")));
}

#[test]
fn a_browse_is_only_awaited_once() {
    let mut pending = PendingBrowses::default();
    pending.expect("bob");
    pending.expect("bob");
    assert_eq!(pending.snapshot(), ["bob"]);
    pending.settled("bob");
    assert!(pending.snapshot().is_empty());
}

#[test]
fn forgetting_one_peer_keeps_the_others() {
    let mut pending = PendingBrowses::new();
    pending.expect("bob");
    pending.expect("sue");
    pending.forget("bob");
    assert_eq!(pending.snapshot(), ["sue"]);
}

#[test]
fn a_token_is_sixty_four_hex_digits() {
    let token = mint_token().expect("the test machine has randomness");
    assert_eq!(token.len(), 64);
    assert!(token.chars().all(|c| c.is_ascii_hexdigit() && !c.is_ascii_uppercase()));
    assert_ne!(mint_token().unwrap(), token);
    assert_eq!(hex_encode(&vec![0, 15, 16, 255]), "000f10ff");
}

#[test]
fn the_socket_and_token_live_in_the_state_folder() {
    assert_eq!(socket_path(Some("/var/lib/s")), Some(PathBuf::from("/var/lib/s/daemon.sock")));
    assert_eq!(token_path(Some("/var/lib/s/")), Some(PathBuf::from("/var/lib/s/daemon.token")));
    assert_eq!(socket_path(None), None);
}

#[test]
fn a_stored_token_is_trimmed_and_a_blank_one_is_none() {
    assert_eq!(stored_token("abc\n").as_deref(), Some("abc"));
    assert_eq!(stored_token("  \n"), None);
}

#[test]
fn the_open_file_limit_is_raised_only_as_far_as_allowed() {
    assert_eq!(file_limit_plan(10_000, Some(20_000)), LimitPlan::Enough(10_000));
    assert_eq!(file_limit_plan(256, Some(4096)), LimitPlan::Raise(4096));
    assert_eq!(file_limit_plan(256, Some(100_000)), LimitPlan::Raise(8192));
    assert_eq!(file_limit_plan(256, None), LimitPlan::Raise(8192));
    assert_eq!(open_files_warning(9000), None);
    assert_eq!(
        open_files_warning(256).as_deref(),
        Some("only 256 open files allowed; a busy search wants 8192. Raise it with `ulimit -n 8192` before starting the daemon.")
    );
}

#[test]
fn only_unfinished_transfers_are_resumed() {
    let d = |name: &str, completed| PersistedDownload {
        username: "peer".into(),
        filename: name.into(),
        size: 1,
        download_directory: "/dl".into(),
        completed,
    };
    let left = unfinished(vec![d("a", true), d("b", false), d("c", false)]);
    assert_eq!(left.iter().map(|x| x.filename.as_str()).collect::<Vec<_>>(), ["b", "c"]);
    assert_eq!(resuming_text(2), "resuming 2 transfers");
}

#[test]
fn history_keeps_the_newest_messages_within_the_cap() {
    let mut hub = History::new();
    for at in 0..(HISTORY_LIMIT as i64 + 5) {
        hub.remember(ChatMessageDto {
            peer: "bob".into(),
            outgoing: false,
            text: format!("m{at}"),
            at,
        });
    }
    let history = hub.history();
    assert_eq!(history.len(), HISTORY_LIMIT);
    assert_eq!(history[0].at, 5, "the oldest messages are the ones dropped");
    assert_eq!(history[HISTORY_LIMIT - 1].at, HISTORY_LIMIT as i64 + 4);
}

#[test]
fn history_carries_both_directions_of_a_conversation() {
    let mut hub = History::new();
    hub.remember(ChatMessageDto {
        peer: "bob".into(),
        outgoing: false,
        text: "hi".into(),
        at: 1,
    });
    hub.remember(ChatMessageDto {
        peer: "bob".into(),
        outgoing: true,
        text: "hello".into(),
        at: 2,
    });
    let history = hub.history();
    assert_eq!(history.len(), 2);
    assert!(!history[0].outgoing);
    assert!(history[1].outgoing);
}

#[test]
fn a_received_message_becomes_an_incoming_line() {
    let line = incoming_line(&UserMessageDto {
        id: 1,
        timestamp: 77,
        username: "bob".into(),
        message: "yo".into(),
        new_message: true,
    });
    assert_eq!(line.peer, "bob");
    assert!(!line.outgoing);
    assert_eq!(line.at, 77);
    let mut h = History::new();
    h.restore(vec![line.clone()]);
    assert_eq!(h.history(), &vec![line]);
}

use soulseek_rs_tui::output::Exit;
use soulseek_rs_tui::transfer::Request;
use soulseek_rs_tui::types::{DownloadStatus, SharedDirectory};
use soulseek_rs_tui::watch::{
    cannot_start, next_lookup, requesting_text, resolve_sizes, size_in_listing, watch_step,
    WatchStep, Watched,
};

fn req(user: &str, path: &str, size: u64) -> Request {
    Request {
        user: user.to_string(),
        path: path.to_string(),
        size,
    }
}

fn listing() -> Vec<SharedDirectory> {
    vec![
        SharedDirectory {
            name: "@@abc\\Music".to_string(),
            files: vec![("a.mp3".to_string(), 10), ("b.mp3".to_string(), 20)],
        },
        SharedDirectory {
            name: "@@abc\\Music\\".to_string(),
            files: vec![("a.mp3".to_string(), 11)],
        },
    ]
}

#[test]
fn the_last_listed_file_with_the_path_gives_the_size() {
    assert_eq!(size_in_listing(&listing(), "@@abc\\Music\\a.mp3"), Some(11));
    assert_eq!(size_in_listing(&listing(), "@@abc\\Music\\b.mp3"), Some(20));
    assert_eq!(size_in_listing(&listing(), "@@abc\\Music\\c.mp3"), None);
}

#[test]
fn sizes_are_looked_up_only_where_missing() {
    let requests = vec![
        req("alice", "@@abc\\Music\\b.mp3", 0),
        req("bob", "x", 5),
    ];
    assert_eq!(next_lookup(&requests, &vec![]), Some("alice".to_string()));
    let listings = vec![("alice".to_string(), listing())];
    assert_eq!(next_lookup(&requests, &listings), None);
    let sized = resolve_sizes(requests, &listings).expect("every file is shared");
    assert_eq!(sized[0].size, 20);
    assert_eq!(sized[1].size, 5);
}

#[test]
fn an_unshared_file_is_the_no_results_verdict() {
    let requests = vec![req("alice", "nope.mp3", 0), req("carol", "y", 0)];
    let listings = vec![("alice".to_string(), listing())];
    assert_eq!(next_lookup(&requests, &listings), None, "sizing stops at the first miss");
    let err = resolve_sizes(requests, &listings).expect_err("not shared");
    assert_eq!(err.exit, Exit::NoResults);
    assert_eq!(
        err.message,
        "alice does not share 'nope.mp3' \u{2014} pass --size to download it anyway"
    );
}

#[test]
fn watching_a_transfer_reaches_a_verdict() {
    let r = req("alice", "@@abc\\Music\\a.mp3", 10);
    match watch_step(&r, "/dl", None, 30, Watched::Status(DownloadStatus::Completed)) {
        WatchStep::Done(record) => {
            assert_eq!(record.file, "/dl/a.mp3");
            assert_eq!(record.size, 10);
        }
        _ => panic!("a completed transfer is done"),
    }
    match watch_step(&r, "/dl", None, 30, Watched::Status(DownloadStatus::Failed(None))) {
        WatchStep::Abandon(e) => {
            assert_eq!(e.exit, Exit::Transfer);
            assert_eq!(e.message, "the transfer failed");
        }
        _ => panic!("a failed transfer is abandoned"),
    }
    match watch_step(&r, "/dl", None, 30, Watched::OutOfTime) {
        WatchStep::Abandon(e) => {
            assert_eq!(e.exit, Exit::Timeout);
            assert_eq!(e.message, "gave up after 30s");
        }
        _ => panic!("the deadline abandons it"),
    }
    match watch_step(&r, "/dl", None, 30, Watched::Status(DownloadStatus::Queued)) {
        WatchStep::Say(m) => assert_eq!(m, "queued behind alice's uploads"),
        _ => panic!("a queued transfer is said"),
    }
    assert!(matches!(
        watch_step(&r, "/dl", None, 30, Watched::Quiet),
        WatchStep::Wait
    ));
    assert!(matches!(
        watch_step(&r, "/dl", None, 30, Watched::Status(DownloadStatus::InProgress)),
        WatchStep::Progress
    ));
    match watch_step(&r, "~/dl", Some("/home/me"), 30, Watched::Status(DownloadStatus::Completed)) {
        WatchStep::Done(record) => assert_eq!(record.file, "/home/me/dl/a.mp3"),
        _ => panic!("done"),
    }
    match watch_step(&r, "/dl", None, 30, Watched::Disconnected) {
        WatchStep::Abandon(e) => {
            assert_eq!(e.message, "the transfer ended without reporting a result")
        }
        _ => panic!("a closed channel abandons it"),
    }
}

#[test]
fn starting_a_transfer_is_announced() {
    assert_eq!(
        requesting_text(&req("alice", "x.mp3", 3)),
        "requesting x.mp3 from alice (3 bytes)\u{2026}"
    );
    assert_eq!(cannot_start("busy").message, "cannot start: busy");
}

use soulseek_rs_tui::app_state::{AppState, DownloadEntry, SearchEntry, SearchStatus};
use soulseek_rs_tui::snapshot::{restore_searches, Snapshot};
use soulseek_rs_tui::state::{readable_version, SetAside, StateFile, StateStore};
use soulseek_rs_tui::types::{Download, DownloadMetadata, DownloadStatus};
use std::path::PathBuf;

fn download(filename: &str, status: DownloadStatus) -> DownloadEntry {
    DownloadEntry {
        download: Download {
            username: "peer".into(),
            filename: filename.into(),
            token: 7,
            size: 42,
            download_directory: "/music".into(),
            status,
            queue_position: None,
            metadata: DownloadMetadata::default(),
        },
        receiver: None,
    }
}

fn search(query: &str) -> SearchEntry {
    SearchEntry {
        query: query.into(),
        status: SearchStatus::Active,
        results: Vec::new(),
        known_files: 0,
        owned: true,
        started_ms: 0,
    }
}

#[test]
fn capture_maps_download_status_to_completed_flag() {
    let mut state = AppState::new();
    state.downloads.push(download("done.mp3", DownloadStatus::Completed));
    state.downloads.push(download("queued.mp3", DownloadStatus::Queued));
    state.downloads.push(download(
        "failed.mp3",
        DownloadStatus::Failed(Some("nope".into())),
    ));

    let snapshot = Snapshot::capture(&state);
    assert_eq!(
        snapshot
            .downloads
            .iter()
            .map(|d| (d.filename.as_str(), d.completed))
            .collect::<Vec<_>>(),
        vec![("done.mp3", true), ("queued.mp3", false), ("failed.mp3", false)]
    );
    assert_eq!(snapshot.downloads[0].username, "peer");
    assert_eq!(snapshot.downloads[0].size, 42);
    assert_eq!(snapshot.downloads[0].download_directory, "/music");
}

#[test]
fn capture_takes_queries_in_order_without_duplicates() {
    let mut state = AppState::new();
    state.searches.push(search("beatles"));
    state.searches.push(search("miles davis"));
    state.searches.push(search("beatles"));
    let snapshot = Snapshot::capture(&state);
    assert_eq!(
        snapshot.queries,
        vec!["beatles".to_string(), "miles davis".to_string()]
    );
}

#[test]
fn capture_takes_open_room_names() {
    let mut state = AppState::new();
    state.rooms.focus_or_open("indie");
    state.rooms.focus_or_open("jazz");
    let snapshot = Snapshot::capture(&state);
    assert_eq!(snapshot.rooms, vec!["indie".to_string(), "jazz".to_string()]);
}

#[test]
fn restore_searches_creates_inert_completed_entries() {
    let mut state = AppState::new();
    restore_searches(
        &mut state,
        &vec!["beatles".to_string(), "miles davis".to_string()],
        5,
    );
    assert_eq!(state.searches.len(), 2);
    assert_eq!(state.searches[0].query, "beatles");
    assert_eq!(state.searches[0].status, SearchStatus::Completed);
    assert!(state.searches[0].results.is_empty());
    assert_eq!(state.searches[1].started_ms, 5);
}

#[test]
fn capture_of_restored_searches_round_trips() {
    let mut state = AppState::new();
    restore_searches(&mut state, &vec!["beatles".to_string()], 0);
    let snapshot = Snapshot::capture(&state);
    assert_eq!(snapshot.queries, vec!["beatles".to_string()]);
}

#[test]
fn restored_duplicates_are_captured_once() {
    let mut state = AppState::new();
    restore_searches(
        &mut state,
        &vec!["a".to_string(), "b".to_string(), "a".to_string()],
        0,
    );
    let snapshot = Snapshot::capture(&state);
    assert_eq!(snapshot.queries, vec!["a".to_string(), "b".to_string()]);
}

#[test]
fn state_files_live_in_the_state_folder() {
    let store = StateStore::new("/var/state".to_string());
    assert_eq!(
        store.path(StateFile::Downloads),
        PathBuf::from("/var/state/downloads.json")
    );
    assert_eq!(
        store.path(StateFile::SearchQueries),
        PathBuf::from("/var/state/searches.json")
    );
    assert_eq!(store.path(StateFile::Unread), PathBuf::from("/var/state/unread.json"));
    assert_eq!(
        store.set_aside_path(StateFile::Rooms),
        PathBuf::from("/var/state/rooms.json.bak")
    );
    assert_eq!(
        store.scratch_path(StateFile::Messages),
        PathBuf::from("/var/state/messages.json.tmp")
    );
}

#[test]
fn only_known_versions_are_read() {
    assert!(readable_version(Some(0)));
    assert!(!readable_version(Some(99)));
    assert!(!readable_version(None));
    assert_eq!(SetAside::Corrupt.reason(), "corrupt");
    assert_eq!(SetAside::Newer.reason(), "from a newer version");
    assert_eq!(SetAside::Unreadable.reason(), "unreadable");
}

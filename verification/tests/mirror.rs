use soulseek_rs_tui::remote::{Endpoint, Mirror, BUFFER_LIMIT};
use soulseek_rs_tui::types::{RoomEvent, SessionLoss, SharedDirectory};
use std::path::PathBuf;
use std::sync::mpsc::Sender;

#[derive(Debug, Clone, PartialEq)]
struct UploadInfo {
    filename: String,
    speed_bytes_per_sec: f64,
}

#[derive(Debug, Clone, PartialEq)]
enum DownloadStatus {
    Queued,
    Completed,
}

type ClientMirror = Mirror<UploadInfo, Sender<DownloadStatus>>;

#[test]
fn an_endpoint_tells_a_socket_path_from_a_host_and_port() {
    assert_eq!(
        Endpoint::parse("/run/soulseek/daemon.sock"),
        Endpoint::Socket(PathBuf::from("/run/soulseek/daemon.sock"))
    );
    assert_eq!(Endpoint::parse("127.0.0.1:5030"), Endpoint::Tcp("127.0.0.1:5030".to_string()));
    assert_eq!(
        Endpoint::parse("daemon.example:5030"),
        Endpoint::Tcp("daemon.example:5030".to_string())
    );
}

#[test]
fn only_a_socket_authenticates_itself() {
    assert!(Endpoint::parse("/tmp/daemon.sock").self_authenticating());
    assert!(!Endpoint::parse("host:5030").self_authenticating());
}

#[test]
fn abandoning_transfers_wakes_whoever_is_waiting_on_them() {
    let mut mirror: ClientMirror = Mirror::default();
    let (sender, receiver) = std::sync::mpsc::channel();
    mirror.expect_download("bob", "a.mp3", sender);

    mirror.abandon_downloads();

    assert!(
        matches!(receiver.recv(), Err(std::sync::mpsc::RecvError)),
        "a caller blocked on a transfer must be told the daemon is gone, not left to time out"
    );
}

#[test]
fn a_room_event_is_delivered_once_and_then_gone() {
    let mut mirror: ClientMirror = Mirror::default();
    mirror.file_room(RoomEvent::Left { room: "lobby".into() });
    assert_eq!(mirror.take_rooms(), [RoomEvent::Left { room: "lobby".into() }]);
    assert!(mirror.take_rooms().is_empty(), "draining twice must not replay");
}

#[test]
fn a_browse_result_is_keyed_by_peer() {
    let mut mirror: ClientMirror = Mirror::default();
    mirror.file_browse(
        "bob".into(),
        vec![SharedDirectory { name: "@@x".into(), files: vec![("a.mp3".into(), 42)] }],
    );
    assert!(mirror.take_browse("sue").is_none());
    let listing = mirror.take_browse("bob").expect("bob answered");
    assert_eq!(listing[0].name, "@@x");
    assert_eq!(listing[0].files, [("a.mp3".to_string(), 42)]);
    assert!(mirror.take_browse("bob").is_none(), "taken means taken");
}

#[test]
fn a_transfer_update_reaches_the_caller_waiting_on_it() {
    let mut mirror: ClientMirror = Mirror::default();
    let (sender, receiver) = std::sync::mpsc::channel();
    mirror.expect_download("bob", "a.mp3", sender);
    mirror.download_sender("bob", "a.mp3").unwrap().send(DownloadStatus::Queued).unwrap();
    assert!(matches!(receiver.try_recv(), Ok(DownloadStatus::Queued)));
    assert!(mirror.download_sender("nobody", "x.mp3").is_none());
    mirror.forget_download("bob", "a.mp3");
    assert!(mirror.download_sender("bob", "a.mp3").is_none());
    let _ = DownloadStatus::Completed;
}

#[test]
fn the_first_session_loss_is_the_one_reported() {
    let mut mirror: ClientMirror = Mirror::default();
    assert!(mirror.loss().is_none());
    mirror.file_loss(SessionLoss::Displaced);
    mirror.file_loss(SessionLoss::Disconnected);
    assert_eq!(mirror.loss(), Some(SessionLoss::Displaced));
}

#[test]
fn an_undrained_buffer_stops_growing_at_its_limit() {
    let mut mirror: ClientMirror = Mirror::default();
    for _ in 0..(BUFFER_LIMIT + 50) {
        mirror.file_room(RoomEvent::Left { room: "lobby".into() });
    }
    assert_eq!(mirror.take_rooms().len(), BUFFER_LIMIT);
}

#[test]
fn uploads_are_handed_over_in_order() {
    let mut mirror: ClientMirror = Mirror::default();
    mirror.file_upload(UploadInfo { filename: "a".into(), speed_bytes_per_sec: 1.5 });
    mirror.file_upload(UploadInfo { filename: "b".into(), speed_bytes_per_sec: 0.0 });
    let uploads = mirror.take_uploads();
    assert_eq!(uploads[1].filename, "b");
    assert!(mirror.take_uploads().is_empty());
}

#[test]
fn forgetting_one_transfer_keeps_the_others_watched() {
    let mut mirror: ClientMirror = Mirror::default();
    let (first, first_rx) = std::sync::mpsc::channel();
    let (second, _second_rx) = std::sync::mpsc::channel();
    mirror.expect_download("bob", "a.mp3", first);
    mirror.expect_download("bob", "b.mp3", second);
    mirror.forget_download("bob", "b.mp3");
    assert!(mirror.download_sender("bob", "b.mp3").is_none());
    mirror.download_sender("bob", "a.mp3").unwrap().send(DownloadStatus::Queued).unwrap();
    assert!(matches!(first_rx.try_recv(), Ok(DownloadStatus::Queued)));
    mirror.forget_download("nobody", "x.mp3");
    assert!(mirror.download_sender("bob", "a.mp3").is_some());
}

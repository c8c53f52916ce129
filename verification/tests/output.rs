use soulseek_rs_tui::output::{
    sanitize, BrowseRecord, CliError, DownloadRecord, Exit, PortmapRecord, Record,
    RoomEventRecord, RoomRecord, SearchRecord,
};

fn search_record() -> SearchRecord {
    SearchRecord {
        user: "bob".into(),
        path: "@@dir\\01 - Track.mp3".into(),
        size: 4096,
        bitrate: Some(320),
        duration: Some(210),
        free_slot: true,
        slots: 1,
        speed: 1000,
    }
}

#[test]
fn exit_codes_are_stable() {
    assert_eq!(Exit::Success.code(), 0);
    assert_eq!(Exit::Failure.code(), 1);
    assert_eq!(Exit::Usage.code(), 2);
    assert_eq!(Exit::Connection.code(), 3);
    assert_eq!(Exit::NoResults.code(), 4);
    assert_eq!(Exit::Timeout.code(), 5);
    assert_eq!(Exit::Transfer.code(), 6);
    assert_eq!(Exit::SessionLost.code(), 7);
}

#[test]
fn sanitize_keeps_records_on_one_line_with_stable_columns() {
    assert_eq!(sanitize("a\tb\nc\r\nd"), "a b c  d");
    assert_eq!(sanitize("plain (name) [2024].mp3"), "plain (name) [2024].mp3");
}

#[test]
fn search_text_is_user_size_bitrate_path() {
    let text = search_record().text();
    let fields: Vec<&str> = text.split('\t').collect();
    assert_eq!(fields, ["bob", "4096", "320", "@@dir\\01 - Track.mp3"]);
}

#[test]
fn unknown_bitrate_renders_as_a_dash() {
    let record = SearchRecord { bitrate: None, ..search_record() };
    assert_eq!(record.text().split('\t').nth(2), Some("-"));
}

#[test]
fn a_tab_in_a_filename_cannot_forge_a_column() {
    let record = SearchRecord { path: "evil\tname.mp3".into(), ..search_record() };
    assert_eq!(record.text().split('\t').count(), 4);
}

#[test]
fn browse_text_is_user_size_path() {
    let record = BrowseRecord {
        user: "bob".into(),
        directory: "@@music".into(),
        path: "@@music\\a.flac".into(),
        size: 12,
    };
    assert_eq!(record.text(), "bob\t12\t@@music\\a.flac");
}

#[test]
fn download_text_is_just_the_local_path() {
    let record = DownloadRecord {
        user: "bob".into(),
        path: "@@music\\a.flac".into(),
        size: 12,
        file: "/music/a.flac".into(),
    };
    assert_eq!(record.text(), "/music/a.flac");
}

#[test]
fn room_text_leads_with_the_user_count() {
    let record = RoomRecord { room: "indie rock".into(), users: 42 };
    assert_eq!(record.text(), "42\tindie rock");
}

#[test]
fn room_event_type_is_first() {
    let record = RoomEventRecord {
        kind: "message",
        room: "lobby".into(),
        user: "bob".into(),
        message: "hi".into(),
    };
    assert_eq!(record.text(), "message\tlobby\tbob\thi");
}

#[test]
fn portmap_text_reports_status_backend_and_address() {
    let ok = PortmapRecord {
        ok: true,
        backend: "upnp".into(),
        external: Some("1.2.3.4:2234".into()),
        port: 2234,
    };
    assert_eq!(ok.text(), "ok\tupnp\t1.2.3.4:2234");
    let failed = PortmapRecord { ok: false, backend: "none".into(), external: None, port: 2234 };
    assert_eq!(failed.text(), "failed\tnone\t-");
}

#[test]
fn every_error_constructor_carries_its_exit_code() {
    assert_eq!(CliError::usage("u").exit, Exit::Usage);
    assert_eq!(CliError::connection("c").exit, Exit::Connection);
    assert_eq!(CliError::timeout("t").exit, Exit::Timeout);
    assert_eq!(CliError::transfer("x").exit, Exit::Transfer);
    assert_eq!(CliError::no_results("n").exit, Exit::NoResults);
    assert_eq!(CliError::session_lost("s").exit, Exit::SessionLost);
    assert_eq!(CliError::new(Exit::Failure, "f").message, "f");
}

#[test]
fn sanitize_replaces_each_separator_with_one_space() {
    assert_eq!(sanitize("\t\t"), "  ");
    assert_eq!(sanitize(""), "");
}

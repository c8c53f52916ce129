use soulseek_rs_tui::output::Exit;
use soulseek_rs_tui::proto::{
    status_from_str, Event, Method, RoomEventDto, RpcError, SearchResultDto, SessionLossDto,
    SharedDirectoryDto, UploadStatusDto, UserInfoDto, UserMessageDto, CODE_APPLICATION,
    CODE_METHOD_NOT_FOUND,
};
use soulseek_rs_tui::types::{
    File, RoomEvent, RoomInfo, SearchResult, SessionLoss, SharedDirectory, UploadStatus,
    UserInfo, UserMessage, UserPresence, UserStats, UserStatus,
};
use std::collections::HashMap;

#[test]
fn a_wire_name_round_trips_through_its_enum() {
    for method in Method::all() {
        assert_eq!(Method::from_wire(method.wire_name()), Some(method));
    }
    for event in Event::all() {
        assert_eq!(Event::from_wire(event.wire_name()), Some(event));
    }
    assert_eq!(Method::from_wire("search.nope"), None);
}

#[test]
fn proto_an_error_without_an_exit_code_is_a_generic_failure() {
    let error = RpcError::new(CODE_METHOD_NOT_FOUND, "no such method");
    assert_eq!(error.exit(), Exit::Failure);
}

#[test]
fn mod_an_error_without_an_exit_code_is_a_generic_failure() {
    let error = RpcError::new(CODE_METHOD_NOT_FOUND, "no such method");
    assert_eq!(error.exit(), Exit::Failure);
}

#[test]
fn an_error_carries_the_exit_code_a_local_run_would_have_produced() {
    for exit in [
        Exit::Success,
        Exit::Failure,
        Exit::Usage,
        Exit::Connection,
        Exit::NoResults,
        Exit::Timeout,
        Exit::Transfer,
        Exit::SessionLost,
    ] {
        let error = RpcError::application(exit, "nope");
        assert_eq!(error.code, CODE_APPLICATION);
        assert_eq!(error.exit(), exit);
    }
}

#[test]
fn the_wire_names_are_the_published_ones() {
    assert_eq!(Method::DaemonStatus.wire_name(), "daemon.status");
    assert_eq!(Method::SearchWishlistInterval.wire_name(), "search.wishlist_interval");
    assert_eq!(Event::SessionLoss.wire_name(), "event.session_loss");
    assert_eq!(Method::all().len(), 32);
    assert_eq!(Event::all().len(), 6);
}

#[test]
fn a_search_result_survives_the_round_trip() {
    let mut attribs = HashMap::new();
    attribs.insert(0, 320);
    attribs.insert(1, 210);
    let result = SearchResult {
        token: 7,
        files: vec![File { username: "bob".into(), name: "@@x\\a.mp3".into(), size: 4096, attribs }],
        slots: 1,
        speed: 900,
        username: "bob".into(),
    };
    let back = SearchResultDto::of(&result).into_result();
    assert_eq!(back.token, 7);
    assert_eq!(back.username, "bob");
    assert_eq!(back.slots, 1);
    assert_eq!(back.speed, 900);
    assert_eq!(back.files[0].name, "@@x\\a.mp3");
    assert_eq!(back.files[0].size, 4096);
    assert_eq!(back.files[0].attribs.get(&0), Some(&320));
    assert_eq!(back.files[0].username, "bob");
}

#[test]
fn every_room_event_survives_the_round_trip() {
    let events = vec![
        RoomEvent::List(vec![RoomInfo { name: "lobby".into(), user_count: 42 }]),
        RoomEvent::Joined { room: "lobby".into(), users: vec!["bob".into(), "sue".into()] },
        RoomEvent::Left { room: "lobby".into() },
        RoomEvent::Message { room: "lobby".into(), username: "bob".into(), message: "hi".into() },
        RoomEvent::UserJoined { room: "lobby".into(), username: "sue".into() },
        RoomEvent::UserLeft { room: "lobby".into(), username: "sue".into() },
    ];
    for event in events {
        let back = RoomEventDto::of(&event).into_event();
        assert_eq!(back, event);
    }
}

#[test]
fn every_upload_status_survives_the_round_trip() {
    for status in [
        UploadStatus::Queued(3),
        UploadStatus::InProgress,
        UploadStatus::Completed,
        UploadStatus::Cancelled,
        UploadStatus::Failed("nope".into()),
    ] {
        assert_eq!(UploadStatusDto::of(&status).into_status(), status);
    }
}

#[test]
fn a_partly_answered_user_stays_partly_answered() {
    let info = UserInfo {
        username: "bob".into(),
        presence: Some(UserPresence { status: UserStatus::Away, privileged: true }),
        stats: None,
    };
    let dto = UserInfoDto::of(&info);
    assert_eq!(dto.presence.as_ref().unwrap().status, "away");
    assert!(dto.stats.is_none());
    assert_eq!(dto.into_info(), info);
    let full = UserInfo {
        username: "sue".into(),
        presence: Some(UserPresence { status: UserStatus::Online, privileged: false }),
        stats: Some(UserStats { average_speed: 500, shared_files: 10, shared_folders: 2 }),
    };
    assert_eq!(UserInfoDto::of(&full).into_info(), full);
}

#[test]
fn an_unknown_status_word_reads_as_offline() {
    assert_eq!(status_from_str("online"), UserStatus::Online);
    assert_eq!(status_from_str("away"), UserStatus::Away);
    assert_eq!(status_from_str("busy"), UserStatus::Offline);
}

#[test]
fn a_private_message_and_a_listing_survive_the_round_trip() {
    let message = UserMessage {
        id: 1234,
        timestamp: 99,
        username: "bob".into(),
        message: "hi".into(),
        new_message: true,
    };
    assert_eq!(UserMessageDto::of(&message).into_message(), message);
    let listing = SharedDirectory { name: "@@x\\Music".into(), files: vec![("a.mp3".into(), 4096)] };
    let back = SharedDirectoryDto::of(&listing).into_directory();
    assert_eq!(back.name, listing.name);
    assert_eq!(back.files, listing.files);
}

#[test]
fn a_session_loss_converts_both_ways() {
    assert_eq!(SessionLossDto::from(SessionLoss::Displaced), SessionLossDto::Displaced);
    assert_eq!(SessionLoss::from(SessionLossDto::Disconnected), SessionLoss::Disconnected);
}

#[test]
fn a_daemon_on_another_protocol_is_refused_with_both_versions_named() {
    assert!(soulseek_rs_tui::proto::check_protocol(soulseek_rs_tui::proto::PROTOCOL_VERSION).is_ok());
    assert_eq!(
        soulseek_rs_tui::proto::check_protocol(2),
        Err("the daemon speaks protocol 2 and this client speaks 1; upgrade whichever is older".to_string())
    );
}

use soulseek_rs_tui::output::{Exit, Record};
use soulseek_rs_tui::social::{
    browse, full_path, message_read, message_send, room_event_record, room_list, room_listen,
    room_say,
};
use soulseek_rs_tui::types::{RoomEvent, RoomInfo, SharedDirectory, UserMessage};

#[test]
fn full_path_joins_a_directory_and_basename_with_a_backslash() {
    assert_eq!(full_path("@@abc\\Music", "a.mp3"), "@@abc\\Music\\a.mp3");
}

#[test]
fn full_path_does_not_double_a_trailing_separator() {
    assert_eq!(full_path("@@abc\\Music\\", "a.mp3"), "@@abc\\Music\\a.mp3");
}

#[test]
fn full_path_of_a_rootless_listing_is_the_basename() {
    assert_eq!(full_path("", "a.mp3"), "a.mp3");
}

#[test]
fn only_events_for_the_listened_room_become_records() {
    let mine = RoomEvent::Message {
        room: "lobby".into(),
        username: "bob".into(),
        message: "hi".into(),
    };
    let elsewhere = RoomEvent::Message {
        room: "other".into(),
        username: "bob".into(),
        message: "hi".into(),
    };
    assert!(room_event_record("lobby", &mine).is_some());
    assert!(room_event_record("lobby", &elsewhere).is_none());
}

#[test]
fn joins_and_leaves_are_labelled() {
    let joined = RoomEvent::UserJoined { room: "lobby".into(), username: "sue".into() };
    let left = RoomEvent::UserLeft { room: "lobby".into(), username: "sue".into() };
    assert_eq!(room_event_record("lobby", &joined).unwrap().kind, "join");
    assert_eq!(room_event_record("lobby", &left).unwrap().kind, "leave");
}

#[test]
fn our_own_join_confirmation_is_not_a_record() {
    let joined = RoomEvent::Joined { room: "lobby".into(), users: vec!["bob".into()] };
    assert!(room_event_record("lobby", &joined).is_none());
}

#[test]
fn a_message_record_carries_user_and_text() {
    let mine = RoomEvent::Message {
        room: "lobby".into(),
        username: "bob".into(),
        message: "hi".into(),
    };
    let record = room_event_record("lobby", &mine).unwrap();
    assert_eq!(record.text(), "message\tlobby\tbob\thi");
}

#[test]
fn a_listener_keeps_only_its_rooms_events_in_order() {
    let events = vec![
        RoomEvent::UserJoined { room: "lobby".into(), username: "sue".into() },
        RoomEvent::Message { room: "other".into(), username: "x".into(), message: "y".into() },
        RoomEvent::Left { room: "lobby".into() },
        RoomEvent::Message { room: "lobby".into(), username: "bob".into(), message: "hi".into() },
    ];
    let records = room_listen("lobby", &events);
    let kinds: Vec<&str> = records.iter().map(|r| r.kind).collect();
    assert_eq!(kinds, ["join", "message"]);
}

#[test]
fn a_listing_becomes_one_record_per_file() {
    let listing = vec![
        SharedDirectory { name: "@@x\\Music".into(), files: vec![("a.mp3".into(), 10), ("b.mp3".into(), 20)] },
        SharedDirectory { name: "@@x\\Empty".into(), files: vec![] },
        SharedDirectory { name: "@@x\\Other\\".into(), files: vec![("c.flac".into(), 30)] },
    ];
    let records = browse("bob", &listing).unwrap();
    assert_eq!(records.len(), 3);
    assert_eq!(records[0].path, "@@x\\Music\\a.mp3");
    assert_eq!(records[1].size, 20);
    assert_eq!(records[2].path, "@@x\\Other\\c.flac");
    assert_eq!(records[2].directory, "@@x\\Other\\");
    assert_eq!(records[2].user, "bob");
}

#[test]
fn a_peer_sharing_nothing_is_the_no_results_verdict() {
    let listing = vec![SharedDirectory { name: "@@x".into(), files: vec![] }];
    let error = browse("bob", &listing).unwrap_err();
    assert_eq!(error.exit, Exit::NoResults);
    assert_eq!(error.message, "bob shares no files");
}

#[test]
fn the_room_list_is_busiest_first_then_by_name() {
    let rooms = vec![
        RoomInfo { name: "blues".into(), user_count: 3 },
        RoomInfo { name: "jazz".into(), user_count: 10 },
        RoomInfo { name: "ambient".into(), user_count: 10 },
    ];
    let records = room_list(Some(rooms), 5).unwrap();
    let names: Vec<&str> = records.iter().map(|r| r.room.as_str()).collect();
    assert_eq!(names, ["ambient", "jazz", "blues"]);
    assert_eq!(records[0].users, 10);
}

#[test]
fn no_room_list_is_a_timeout_and_an_empty_one_no_results() {
    let error = room_list(None, 7).unwrap_err();
    assert_eq!(error.exit, Exit::Timeout);
    assert_eq!(error.message, "the server sent no room list within 7s");
    let error = room_list(Some(vec![]), 7).unwrap_err();
    assert_eq!(error.exit, Exit::NoResults);
}

#[test]
fn an_unacknowledged_post_is_a_timeout() {
    assert_eq!(room_say("lobby", true).unwrap(), "posted to lobby");
    let error = room_say("lobby", false).unwrap_err();
    assert_eq!(error.exit, Exit::Timeout);
    assert_eq!(error.message, "the server did not acknowledge the message to lobby");
    assert_eq!(message_send("bob", true).unwrap(), "sent to bob");
    assert_eq!(message_send("bob", false).unwrap_err().exit, Exit::Timeout);
}

#[test]
fn private_messages_become_records_in_order() {
    let messages = vec![
        UserMessage { id: 1, timestamp: 100, username: "bob".into(), message: "hi".into(), new_message: true },
        UserMessage { id: 2, timestamp: 200, username: "sue".into(), message: "yo".into(), new_message: false },
    ];
    let records = message_read(&messages);
    assert_eq!(records.len(), 2);
    assert_eq!(records[1].user, "sue");
    assert_eq!(records[1].timestamp, 200);
    assert_eq!(records[0].message, "hi");
}

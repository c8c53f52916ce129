use soulseek_rs_tui::rooms::{RoomsState, RoomsView};
use soulseek_rs_tui::types::{RoomEvent, RoomInfo};

fn room(name: &str, users: u32) -> RoomInfo {
    RoomInfo { name: name.to_string(), user_count: users }
}

#[test]
fn filtered_rooms_sorts_busiest_first_then_name() {
    let mut state = RoomsState::new();
    state.apply_event(
        RoomEvent::List(vec![room("blues", 3), room("jazz", 10), room("ambient", 10)]),
        None,
    );
    let names: Vec<String> = state.filtered_rooms().into_iter().map(|r| r.name).collect();
    assert_eq!(names, vec!["ambient", "jazz", "blues"]);
}

#[test]
fn filter_matches_case_insensitively() {
    let mut state = RoomsState::new();
    state.apply_event(RoomEvent::List(vec![room("Jazz", 1), room("Blues", 1)]), None);
    state.list_filter = "JAZ".to_string();
    let names: Vec<String> = state.filtered_rooms().into_iter().map(|r| r.name).collect();
    assert_eq!(names, vec!["Jazz"]);
}

#[test]
fn joining_creates_a_tab_with_members() {
    let mut state = RoomsState::new();
    state.apply_event(
        RoomEvent::Joined {
            room: "jazz".to_string(),
            users: vec!["alice".to_string(), "bob".to_string()],
        },
        None,
    );
    assert_eq!(state.open.len(), 1);
    assert_eq!(state.open[0].name, "jazz");
    assert_eq!(state.open[0].users, vec!["alice", "bob"]);
}

#[test]
fn message_to_unviewed_room_increments_unread() {
    let mut state = RoomsState::new();
    state.focus_or_open("jazz");
    state.apply_event(
        RoomEvent::Message {
            room: "jazz".to_string(),
            username: "bob".to_string(),
            message: "hi".to_string(),
        },
        None,
    );
    assert_eq!(state.open[0].unread, 1);
    assert_eq!(state.total_unread(), 1);
}

#[test]
fn message_to_viewed_room_does_not_increment_unread() {
    let mut state = RoomsState::new();
    state.focus_or_open("jazz");
    state.apply_event(
        RoomEvent::Message {
            room: "jazz".to_string(),
            username: "bob".to_string(),
            message: "hi".to_string(),
        },
        Some("jazz"),
    );
    assert_eq!(state.open[0].unread, 0);
    assert_eq!(state.open[0].lines.len(), 1);
}

#[test]
fn focus_or_open_is_idempotent_and_marks_read() {
    let mut state = RoomsState::new();
    assert!(state.focus_or_open("jazz"));
    state.open[0].unread = 4;
    assert!(!state.focus_or_open("jazz"));
    assert_eq!(state.open.len(), 1);
    assert_eq!(state.open[0].unread, 0, "focusing clears unread");
}

#[test]
fn closing_active_tab_returns_name_and_adjusts_index() {
    let mut state = RoomsState::new();
    state.focus_or_open("a");
    state.focus_or_open("b");
    assert_eq!(state.active, 1);
    assert_eq!(state.close_active().as_deref(), Some("b"));
    assert_eq!(state.active, 0);
    assert_eq!(state.open.len(), 1);
    assert_eq!(state.close_active().as_deref(), Some("a"));
    assert!(state.open.is_empty());
    assert_eq!(state.view, RoomsView::List);
}

#[test]
fn tab_cycling_wraps_and_marks_read() {
    let mut state = RoomsState::new();
    state.focus_or_open("a");
    state.focus_or_open("b");
    state.open[0].unread = 2;
    state.next_tab();
    assert_eq!(state.active, 0);
    assert_eq!(state.open[0].unread, 0);
    state.prev_tab();
    assert_eq!(state.active, 1);
}

#[test]
fn user_joined_and_left_update_membership() {
    let mut state = RoomsState::new();
    state.apply_event(
        RoomEvent::Joined { room: "jazz".to_string(), users: vec!["alice".to_string()] },
        None,
    );
    state.apply_event(
        RoomEvent::UserJoined { room: "jazz".to_string(), username: "bob".to_string() },
        None,
    );
    assert_eq!(state.open[0].users, vec!["alice", "bob"]);
    state.apply_event(
        RoomEvent::UserLeft { room: "jazz".to_string(), username: "alice".to_string() },
        None,
    );
    assert_eq!(state.open[0].users, vec!["bob"]);
}

#[test]
fn leaving_a_room_keeps_its_tab_with_a_note() {
    let mut state = RoomsState::new();
    state.focus_or_open("a");
    state.apply_event(RoomEvent::Left { room: "a".to_string() }, None);
    assert_eq!(state.open.len(), 1);
    assert_eq!(state.open[0].lines.len(), 1);
    assert_eq!(state.open[0].lines[0].text, "— left —");
    assert_eq!(state.open[0].lines[0].username, None);
}

#[test]
fn a_message_for_an_unopened_room_opens_it_unread() {
    let mut state = RoomsState::new();
    state.apply_event(
        RoomEvent::Message {
            room: "nowhere".to_string(),
            username: "bob".to_string(),
            message: "hi".to_string(),
        },
        None,
    );
    assert_eq!(state.open.len(), 1);
    assert_eq!(state.open[0].name, "nowhere");
    assert_eq!(state.total_unread(), 1);
}

#[test]
fn stepping_to_the_next_tab_and_back_returns_to_the_start() {
    let mut state = RoomsState::new();
    state.focus_or_open("indie");
    state.focus_or_open("jazz");
    state.focus_or_open("lobby");
    for start in 0..3 {
        state.active = start;
        state.next_tab();
        assert_eq!(state.active, (start + 1) % 3);
        state.prev_tab();
        assert_eq!(state.active, start);
        state.prev_tab();
        state.next_tab();
        assert_eq!(state.active, start);
    }
}

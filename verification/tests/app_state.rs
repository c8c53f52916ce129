use soulseek_rs_tui::app_state::{AppState, ChatMessage, FocusedPane, MessageDirection, PaneLayout};

fn say(state: &mut AppState, peer: &str) {
    state.messages.push(ChatMessage {
        direction: MessageDirection::Outgoing,
        peer: peer.to_string(),
        text: "hi".to_string(),
        at: 0,
    });
}

fn visible(layout: &PaneLayout) -> Vec<FocusedPane> {
    layout.visible()
}

#[test]
fn chat_defaults_to_the_newest_conversation_and_cycles() {
    let mut state = AppState::new();
    assert_eq!(state.active_chat_peer(), None);

    say(&mut state, "alice");
    say(&mut state, "bob");
    say(&mut state, "alice");
    assert_eq!(state.chat_peers(), vec!["alice", "bob"]);
    assert_eq!(state.active_chat_peer(), Some("alice"));

    state.cycle_chat_peer(true);
    assert_eq!(state.active_chat_peer(), Some("bob"));
    state.cycle_chat_peer(true); // wraps
    assert_eq!(state.active_chat_peer(), Some("alice"));
    state.cycle_chat_peer(false);
    assert_eq!(state.active_chat_peer(), Some("bob"));
}

#[test]
fn every_pane_starts_visible_and_unzoomed() {
    let state = AppState::new();
    assert_eq!(visible(&state.layout), FocusedPane::all());
    assert!(!state.layout.zoomed);
    assert!(!state.show_help);
}

#[test]
fn tab_cycles_the_focus_through_the_visible_panes_and_wraps() {
    let mut state = AppState::new();
    assert_eq!(state.focused_pane, FocusedPane::Searches);
    state.cycle_focus(true);
    assert_eq!(state.focused_pane, FocusedPane::Results);
    state.cycle_focus(true);
    assert_eq!(state.focused_pane, FocusedPane::Downloads);
    state.cycle_focus(true);
    assert_eq!(state.focused_pane, FocusedPane::Searches, "wraps");
    state.cycle_focus(false);
    assert_eq!(state.focused_pane, FocusedPane::Downloads, "and back");
}

#[test]
fn hiding_the_focused_pane_moves_the_focus_past_it() {
    let mut state = AppState::new();
    state.focus_pane(FocusedPane::Results);
    state.hide_focused_pane();
    assert_eq!(
        visible(&state.layout),
        [FocusedPane::Searches, FocusedPane::Downloads]
    );
    assert_eq!(state.focused_pane, FocusedPane::Downloads);

    // Tab now skips the hidden pane in both directions.
    state.cycle_focus(true);
    assert_eq!(state.focused_pane, FocusedPane::Searches);
    state.cycle_focus(false);
    assert_eq!(state.focused_pane, FocusedPane::Downloads);
}

#[test]
fn hiding_wraps_the_focus_to_the_first_pane() {
    let mut state = AppState::new();
    state.focus_pane(FocusedPane::Downloads);
    state.hide_focused_pane();
    assert_eq!(state.focused_pane, FocusedPane::Searches);
}

#[test]
fn the_last_visible_pane_cannot_be_hidden() {
    let mut state = AppState::new();
    state.hide_focused_pane();
    state.hide_focused_pane();
    assert_eq!(visible(&state.layout), [FocusedPane::Downloads]);
    state.hide_focused_pane();
    assert_eq!(
        visible(&state.layout),
        [FocusedPane::Downloads],
        "one pane always stays on screen"
    );
    assert_eq!(state.focused_pane, FocusedPane::Downloads);
}

#[test]
fn focusing_a_hidden_pane_by_number_brings_it_back() {
    let mut state = AppState::new();
    state.focus_pane(FocusedPane::Results);
    state.hide_focused_pane();
    assert!(!state.layout.is_visible(FocusedPane::Results));

    state.focus_pane(FocusedPane::Results);

    assert!(state.layout.is_visible(FocusedPane::Results));
    assert_eq!(state.focused_pane, FocusedPane::Results);
}

#[test]
fn zoom_toggles_and_leaves_hidden_panes_alone() {
    let mut state = AppState::new();
    state.focus_pane(FocusedPane::Searches);
    state.hide_focused_pane();
    state.toggle_zoom();
    assert!(state.layout.zoomed);
    assert!(!state.layout.is_visible(FocusedPane::Searches));
    state.toggle_zoom();
    assert!(!state.layout.zoomed);
    assert!(!state.layout.is_visible(FocusedPane::Searches));
}

#[test]
fn cycling_to_the_same_chat_keeps_the_place() {
    let mut state = AppState::new();
    say(&mut state, "alice");
    state.chat_view.window(50, 10);
    state.chat_view.scroll(-10);
    state.cycle_chat_peer(true);
    assert!(!state.chat_view.following(), "only one chat: nothing moved");
    say(&mut state, "bob");
    state.cycle_chat_peer(true);
    assert!(state.chat_view.following(), "a new chat opens at its end");
}

#[test]
fn opening_a_chat_pins_a_peer_with_no_messages_yet() {
    let mut state = AppState::new();
    say(&mut state, "alice");
    state.open_chat("carol".to_string());
    assert_eq!(state.active_chat_peer(), Some("carol"));
    assert!(state.show_messages && state.chat_composing);
    assert_eq!(state.unread_messages, 0);
    assert_eq!(state.chat_peers(), vec!["alice", "carol"]);
}

#[test]
fn cycling_with_no_conversations_changes_nothing() {
    let mut state = AppState::new();
    state.cycle_chat_peer(true);
    assert_eq!(state.chat_peer, None);
    assert!(state.chat_peers().is_empty());
}

#[test]
fn each_pane_scrolls_its_own_column() {
    let mut state = AppState::new();
    state.set_name_offset(FocusedPane::Results, 7);
    assert_eq!(state.name_offset(FocusedPane::Results), 7);
    assert_eq!(state.name_offset(FocusedPane::Searches), 0);
    assert_eq!(state.name_offset(FocusedPane::Downloads), 0);
}

#[test]
fn a_fresh_interface_highlights_the_first_rows() {
    let state = AppState::new();
    assert_eq!(state.searches_selected, Some(0));
    assert_eq!(state.results_selected, Some(0));
    assert_eq!(state.downloads_selected, Some(0));
    assert!(state.searches.is_empty() && state.downloads.is_empty());
    assert!(state.settings.is_none());
}

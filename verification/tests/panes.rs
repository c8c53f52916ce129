use soulseek_rs_tui::app_state::{FocusedPane, LogView, PaneLayout};

#[test]
fn a_log_view_follows_the_tail_until_held_and_holds_against_new_rows() {
    let mut view = LogView::default();
    assert_eq!(view.window(100, 10), 90..100);
    assert!(view.following());

    view.scroll(-10);
    assert_eq!(view.window(100, 10), 80..90);
    assert!(!view.following());

    assert_eq!(view.window(105, 10), 80..90);

    view.scroll(10);
    view.scroll(10);
    assert_eq!(view.window(105, 10), 95..105);
    assert!(view.following());

    view.to_oldest();
    assert_eq!(view.window(105, 10), 0..10);
    view.scroll(-10);
    assert_eq!(view.window(105, 10), 0..10, "clamped at the top");
    view.to_newest();
    assert_eq!(view.window(105, 10), 95..105);
}

#[test]
fn a_log_shorter_than_its_window_is_never_held() {
    let mut view = LogView::default();
    assert_eq!(view.window(3, 10), 0..3);
    view.to_oldest();
    assert_eq!(view.window(3, 10), 0..3);
    assert!(view.following(), "nothing to hold");
}

#[test]
fn a_zero_height_window_shows_one_row() {
    let mut view = LogView::new();
    assert_eq!(view.window(5, 0), 4..5);
    assert_eq!(view.page(), 1);
}

#[test]
fn every_pane_starts_visible_and_the_last_one_cannot_be_hidden() {
    let mut layout = PaneLayout::default();
    assert_eq!(layout.visible(), FocusedPane::all());
    assert!(!layout.zoomed);
    assert!(layout.hide_pane(FocusedPane::Searches));
    assert!(layout.hide_pane(FocusedPane::Results));
    assert!(!layout.hide_pane(FocusedPane::Downloads), "one pane always stays on screen");
    assert_eq!(layout.visible(), [FocusedPane::Downloads]);
    layout.show(FocusedPane::Results);
    assert!(layout.is_visible(FocusedPane::Results));
}

#[test]
fn tab_cycles_through_the_visible_panes_and_wraps() {
    let mut layout = PaneLayout::default();
    assert_eq!(layout.neighbour(FocusedPane::Searches, true), FocusedPane::Results);
    assert_eq!(layout.neighbour(FocusedPane::Downloads, true), FocusedPane::Searches);
    assert_eq!(layout.neighbour(FocusedPane::Searches, false), FocusedPane::Downloads);
    layout.hide_pane(FocusedPane::Results);
    assert_eq!(layout.neighbour(FocusedPane::Results, true), FocusedPane::Downloads);
    assert_eq!(layout.neighbour(FocusedPane::Downloads, true), FocusedPane::Searches);
    assert_eq!(layout.neighbour(FocusedPane::Searches, false), FocusedPane::Downloads);
}

#[test]
fn the_focus_never_rests_on_a_hidden_pane() {
    let mut state = soulseek_rs_tui::app_state::AppState::new();
    for _ in 0..5 {
        state.hide_focused_pane();
        assert!(state.layout.is_visible(state.focused_pane));
        state.cycle_focus(false);
        assert!(state.layout.is_visible(state.focused_pane));
    }
    assert_eq!(state.layout.visible().len(), 1);
    state.focus_pane(FocusedPane::Searches);
    assert!(state.layout.is_visible(FocusedPane::Searches));
    let mut layout = PaneLayout::default();
    assert!(layout.hide_pane(FocusedPane::Results));
    assert!(layout.hide_pane(FocusedPane::Downloads));
    assert!(!layout.hide_pane(FocusedPane::Searches));
    assert_eq!(layout.visible(), vec![FocusedPane::Searches]);
}

#[test]
fn a_scroll_lands_where_the_next_window_starts() {
    let mut view = LogView::default();
    assert_eq!(view.window(100, 10), 90..100);
    view.scroll(-25);
    assert!(!view.following());
    assert_eq!(view.window(100, 10), 65..75);
    view.scroll(40);
    assert!(view.following());
    assert_eq!(view.window(100, 10), 90..100);
}

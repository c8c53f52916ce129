use soulseek_rs_tui::config::FileConfig;
use soulseek_rs_tui::output::Exit;
use soulseek_rs_tui::wish::{add, list, remove, run, selected, Sweeper};

fn stored() -> FileConfig {
    let mut config = FileConfig::default();
    config.add_wish("Aphex Twin");
    config.add_wish("Boards of Canada");
    config
}

#[test]
fn without_only_every_stored_wish_runs() {
    assert_eq!(selected(&stored(), None).unwrap(), stored().wishes());
}

#[test]
fn an_empty_wishlist_is_the_no_results_verdict() {
    let error = selected(&FileConfig::default(), None).expect_err("nothing to run");
    assert_eq!(error.exit, Exit::NoResults);
}

#[test]
fn only_selects_one_stored_wish_ignoring_case_and_space() {
    assert_eq!(
        selected(&stored(), Some("  aphex twin ")).unwrap(),
        ["Aphex Twin"],
        "the stored spelling is what gets searched"
    );
}

#[test]
fn only_naming_something_unstored_is_a_usage_error() {
    let error = selected(&stored(), Some("plaid")).expect_err("a typo must not become an ad-hoc search");
    assert_eq!(error.exit, Exit::Usage);
    assert!(error.message.contains("wish list"), "{}", error.message);
}

#[test]
fn a_sweeper_needs_something_to_look_for() {
    assert!(Sweeper::new(Vec::new()).is_none());
    assert!(Sweeper::new(stored().wishes()).is_some());
}

#[test]
fn adding_a_new_wish_returns_the_updated_list_and_its_record() {
    let (updated, record) = add(stored(), "  Plaid ").unwrap().unwrap();
    assert_eq!(record.query, "Plaid");
    assert_eq!(updated.wishes(), ["Aphex Twin", "Boards of Canada", "Plaid"]);
}

#[test]
fn adding_a_repeat_changes_nothing_and_a_blank_is_refused() {
    assert!(add(stored(), "APHEX TWIN").unwrap().is_none());
    let error = add(stored(), "   ").unwrap_err();
    assert_eq!(error.exit, Exit::Usage);
    assert_eq!(error.message, "a wish needs a query");
}

#[test]
fn removing_an_unstored_wish_is_the_no_results_verdict() {
    let error = remove(stored(), " plaid ").unwrap_err();
    assert_eq!(error.exit, Exit::NoResults);
    assert_eq!(error.message, "'plaid' is not on the wishlist");
    let updated = remove(stored(), "boards of canada").unwrap();
    assert_eq!(updated.wishes(), ["Aphex Twin"]);
}

#[test]
fn listing_an_empty_wishlist_is_the_no_results_verdict() {
    assert_eq!(list(&FileConfig::default()).unwrap_err().exit, Exit::NoResults);
    let records = list(&stored()).unwrap();
    assert_eq!(records[1].query, "Boards of Canada");
}

#[test]
fn a_run_that_found_nothing_says_so() {
    assert!(run(true).is_ok());
    assert_eq!(run(false).unwrap_err().exit, Exit::NoResults);
}

#[test]
fn the_first_sweep_is_due_at_once_and_the_next_after_the_interval() {
    let mut sweeper = Sweeper::new(stored().wishes()).unwrap();
    assert_eq!(sweeper.tick(0).unwrap(), stored().wishes());
    let status = sweeper.swept(1_000, 720_000);
    assert_eq!(status, "next wishlist sweep in 720s");
    assert!(sweeper.tick(720_999).is_none());
    assert!(sweeper.tick(721_000).is_some());
}

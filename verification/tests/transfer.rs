use soulseek_rs_tui::cli::{DownloadArgs, FilterArgs, GetArgs, Pick, SearchArgs, SortKey};
use soulseek_rs_tui::output::{CliError, Exit};
use soulseek_rs_tui::transfer::{
    candidates, checked_request, dedupe, download_requests, downloads_verdict, get, json_text,
    line_form, local_file, local_path, rank, search, text_request, Clash, Filter, LineForm,
    Request, ATTR_BITRATE, ATTR_DURATION,
};
use soulseek_rs_tui::types::{File, SearchResult};
use std::collections::HashMap;
use std::path::PathBuf;

fn file(name: &str, size: u64, bitrate: Option<u32>) -> File {
    let mut attribs = HashMap::new();
    if let Some(bitrate) = bitrate {
        attribs.insert(ATTR_BITRATE, bitrate);
        attribs.insert(ATTR_DURATION, 200);
    }
    File { username: String::new(), name: name.to_string(), size, attribs }
}

fn result(user: &str, slots: u8, speed: u32, files: Vec<File>) -> SearchResult {
    SearchResult { token: 1, files, slots, speed, username: user.to_string() }
}

fn sample() -> Vec<SearchResult> {
    vec![
        result("slow", 1, 100, vec![file("a\\low.mp3", 10, Some(128))]),
        result("busy", 0, 900, vec![file("b\\best.mp3", 90, Some(320))]),
        result(
            "fast",
            1,
            500,
            vec![file("c\\good.mp3", 50, Some(256)), file("c\\unknown.mp3", 70, None)],
        ),
    ]
}

#[test]
fn candidates_flatten_every_file_of_every_peer() {
    let found = candidates(&sample(), &Filter::default());
    assert_eq!(found.len(), 4);
    assert!(found.iter().any(|c| c.user == "fast" && c.size == 70));
}

#[test]
fn candidates_carry_bitrate_duration_and_slot_state() {
    let found = candidates(&sample(), &Filter::default());
    let best = found.iter().find(|c| c.path == "b\\best.mp3").unwrap();
    assert_eq!(best.bitrate, Some(320));
    assert_eq!(best.duration, Some(200));
    assert!(!best.free_slot);
    assert_eq!(best.speed, 900);
}

#[test]
fn min_bitrate_drops_lower_and_unknown_bitrates() {
    let filter = Filter { min_bitrate: Some(256), free_slots_only: false, ..Filter::default() };
    let found = candidates(&sample(), &filter);
    let paths: Vec<&str> = found.iter().map(|c| c.path.as_str()).collect();
    assert_eq!(paths, ["b\\best.mp3", "c\\good.mp3"]);
}

#[test]
fn free_slots_only_keeps_peers_advertising_a_slot() {
    let filter = Filter { min_bitrate: None, free_slots_only: true, ..Filter::default() };
    let found = candidates(&sample(), &filter);
    assert!(found.iter().all(|c| c.free_slot));
    assert!(found.iter().all(|c| c.user != "busy"));
}

#[test]
fn best_prefers_a_free_slot_over_a_higher_bitrate() {
    let mut found = candidates(&sample(), &Filter::default());
    rank(&mut found, SortKey::Best);
    assert_eq!(found[0].path, "c\\good.mp3");
    assert_eq!(found[0].user, "fast");
}

#[test]
fn sort_modes_lead_with_their_own_key() {
    let mut found = candidates(&sample(), &Filter::default());
    rank(&mut found, SortKey::Size);
    assert_eq!(found[0].size, 90);
    rank(&mut found, SortKey::Bitrate);
    assert_eq!(found[0].bitrate, Some(320));
    rank(&mut found, SortKey::Speed);
    assert_eq!(found[0].speed, 900);
}

#[test]
fn ranking_is_deterministic_for_equivalent_results() {
    let tie = vec![
        result("zed", 1, 1, vec![file("x.mp3", 1, Some(128))]),
        result("amy", 1, 1, vec![file("x.mp3", 1, Some(128))]),
    ];
    let mut found = candidates(&tie, &Filter::default());
    rank(&mut found, SortKey::Best);
    assert_eq!(found[0].user, "amy");
}

#[test]
fn local_path_uses_the_last_segment_of_a_windows_style_path() {
    assert_eq!(
        local_path("/music", "@@abc\\Albums\\01 - Track.mp3"),
        PathBuf::from("/music/01 - Track.mp3")
    );
    assert_eq!(local_path("/music", "plain.mp3"), PathBuf::from("/music/plain.mp3"));
    assert_eq!(local_path("/music", "unix/style/file.mp3"), PathBuf::from("/music/file.mp3"));
}

#[test]
fn a_leading_tilde_stands_for_the_home_folder() {
    assert_eq!(local_file("~/music", "a\\b.mp3", Some("/home/u")), "/home/u/music/b.mp3");
    assert_eq!(local_file("~", "b.mp3", Some("/home/u")), "/home/u/b.mp3");
    assert_eq!(local_file("~/music", "b.mp3", None), "~/music/b.mp3");
}

#[test]
fn stdin_accepts_the_text_records_search_emits() {
    assert_eq!(line_form("bob\t4096\t320\t@@x\\track.mp3"), LineForm::Text);
    let request = text_request("bob\t4096\t320\t@@x\\track.mp3").unwrap();
    assert_eq!(request.user, "bob");
    assert_eq!(request.size, 4096);
    assert_eq!(request.path, "@@x\\track.mp3");
}

#[test]
fn stdin_accepts_a_bare_user_and_path_pair() {
    let request = text_request("bob\t@@x\\track.mp3").unwrap();
    assert_eq!(request.user, "bob");
    assert_eq!(request.path, "@@x\\track.mp3");
    assert_eq!(request.size, 0);
}

#[test]
fn stdin_skips_blank_lines_and_rejects_junk() {
    assert_eq!(line_form("   "), LineForm::Blank);
    assert_eq!(line_form("\r\n"), LineForm::Blank);
    assert!(text_request("nonsense").is_err());
    assert_eq!(line_form("{\"path\":\"a\"}"), LineForm::Json);
    assert!(text_request("\tpath-only").is_err());
}

#[test]
fn a_json_line_is_handed_over_trimmed() {
    assert_eq!(json_text("  {\"user\":\"bob\"}\r\n"), "{\"user\":\"bob\"}");
    assert!(checked_request(String::new(), "a.mp3".into(), 0).is_err());
    assert!(checked_request("bob".into(), String::new(), 0).is_err());
    assert_eq!(checked_request("bob".into(), "a.mp3".into(), 7).unwrap().size, 7);
}

#[test]
fn an_unreadable_size_counts_as_unknown() {
    let request = text_request("bob\tlots\t320\ta.mp3").unwrap();
    assert_eq!(request.size, 0);
    let request = text_request("bob\t99999999999999999999\t320\ta.mp3").unwrap();
    assert_eq!(request.size, 0);
}

fn request(user: &str, path: &str) -> Request {
    Request { user: user.into(), path: path.into(), size: 1 }
}

#[test]
fn duplicate_remote_paths_are_dropped_because_the_store_keys_by_path() {
    let (kept, skipped) = dedupe(&vec![
        request("a", "same.mp3"),
        request("b", "same.mp3"),
        request("c", "other.mp3"),
    ]);
    assert_eq!(kept.len(), 2);
    assert_eq!(kept[0].user, "a");
    assert_eq!(kept[1].path, "other.mp3");
    assert_eq!(skipped.len(), 1);
    assert_eq!(skipped[0].clash, Clash::SamePath);
    assert_eq!(
        skipped[0].message(),
        "skipping same.mp3 from b: same remote path already queued from a"
    );
}

#[test]
fn requests_that_would_overwrite_the_same_local_file_are_dropped() {
    let (kept, skipped) = dedupe(&vec![
        request("a", "@@one\\album\\track.mp3"),
        request("b", "@@two\\other\\track.mp3"),
    ]);
    assert_eq!(kept.len(), 1);
    assert_eq!(kept[0].user, "a");
    assert_eq!(skipped[0].clash, Clash::SameFile);
    assert_eq!(skipped[0].queued_from, "a");
}

#[test]
fn a_single_failure_is_reported_as_is_and_several_are_counted() {
    assert!(downloads_verdict(vec![]).is_ok());
    let one = downloads_verdict(vec![CliError::transfer("refused")]).unwrap_err();
    assert_eq!(one.message, "refused");
    let timeouts =
        downloads_verdict(vec![CliError::timeout("a"), CliError::timeout("b")]).unwrap_err();
    assert_eq!(timeouts.exit, Exit::Timeout);
    assert_eq!(timeouts.message, "2 downloads timed out");
    let mixed =
        downloads_verdict(vec![CliError::timeout("a"), CliError::transfer("b")]).unwrap_err();
    assert_eq!(mixed.exit, Exit::Transfer);
    assert_eq!(mixed.message, "2 downloads failed");
}

#[test]
fn search_filters_ranks_and_caps() {
    let args = SearchArgs {
        query: "x".into(),
        filter: FilterArgs::default(),
        limit: 2,
        sort: SortKey::Size,
    };
    let found = search(&sample(), &args).unwrap();
    assert_eq!(found.len(), 2);
    assert_eq!(found[0].size, 90);
    assert_eq!(found[1].size, 70);
    let none = SearchArgs {
        query: "x".into(),
        filter: FilterArgs { min_bitrate: Some(1000), ..FilterArgs::default() },
        limit: 0,
        sort: SortKey::Best,
    };
    let error = search(&sample(), &none).unwrap_err();
    assert_eq!(error.exit, Exit::NoResults);
    assert_eq!(error.message, "no results for 'x'");
}

#[test]
fn exclusions_extensions_and_size_bounds_narrow_the_results() {
    let filter = Filter { exclude: vec!["unknown".into()], ..Filter::default() };
    assert_eq!(candidates(&sample(), &filter).len(), 3);
    let mut results = sample();
    results.push(result("flac", 1, 1, vec![file("d\\song.FLAC", 5, None)]));
    let filter = Filter { extensions: vec![".flac".into()], ..Filter::default() };
    let found = candidates(&results, &filter);
    assert_eq!(found.len(), 1);
    assert_eq!(found[0].user, "flac");
    let filter = Filter { min_size: Some(50), max_size: Some(70), ..Filter::default() };
    assert_eq!(candidates(&sample(), &filter).len(), 2);
}

#[test]
fn get_fetches_the_best_one_unless_asked_for_all() {
    let args = GetArgs {
        query: "x".into(),
        pick: Pick::Best,
        limit: 0,
        filter: FilterArgs::default(),
        timeout: 300,
    };
    let chosen = get(&sample(), &args).unwrap();
    assert_eq!(chosen.len(), 1);
    assert_eq!(chosen[0].path, "c\\good.mp3");
    let all = GetArgs { pick: Pick::All, ..args };
    assert_eq!(get(&sample(), &all).unwrap().len(), 4);
}

#[test]
fn download_needs_a_file_to_fetch() {
    let args = DownloadArgs { user: None, path: None, size: None, stdin: false, timeout: 300 };
    assert_eq!(download_requests(&args, vec![]).unwrap_err().exit, Exit::Usage);
    let args = DownloadArgs {
        user: Some("bob".into()),
        path: Some("a.mp3".into()),
        size: None,
        stdin: false,
        timeout: 300,
    };
    let requests = download_requests(&args, vec![]).unwrap();
    assert_eq!(requests, vec![Request { user: "bob".into(), path: "a.mp3".into(), size: 0 }]);
    let stdin = DownloadArgs { user: None, path: None, size: None, stdin: true, timeout: 300 };
    let error = download_requests(&stdin, vec![]).unwrap_err();
    assert_eq!(error.exit, Exit::NoResults);
    assert_eq!(error.message, "no files to download");
}

#[test]
fn downloads_run_at_least_one_and_at_most_one_per_file_at_a_time() {
    assert_eq!(soulseek_rs_tui::transfer::worker_count(20, 3), 3);
    assert_eq!(soulseek_rs_tui::transfer::worker_count(2, 5), 2);
    assert_eq!(soulseek_rs_tui::transfer::worker_count(0, 5), 1);
    assert_eq!(soulseek_rs_tui::transfer::worker_count(4, 0), 1);
}

use soulseek_rs_tui::browse::{
    build_browse_tree, files_under, find_node, flatten_browse, BrowseNode, BrowseState,
    BrowseStatus,
};
use soulseek_rs_tui::types::SharedDirectory;

fn dir(name: &str, files: &[(&str, u64)]) -> SharedDirectory {
    SharedDirectory {
        name: name.to_string(),
        files: files.iter().map(|(n, s)| ((*n).to_string(), *s)).collect(),
    }
}

fn collect_all(nodes: &[BrowseNode]) -> Vec<(String, u64)> {
    let mut out = Vec::new();
    for n in nodes {
        out.extend(files_under(n));
    }
    out
}

#[test]
fn intermediate_folders_are_synthesized() {
    let tree = build_browse_tree(&vec![dir("share\\music\\album", &[("a.mp3", 10)])]);
    // share -> music -> album -> a.mp3
    assert_eq!(tree.file_count, 1);
    assert_eq!(tree.folder_count, 3);
    let BrowseNode::Folder {
        name,
        path,
        children,
    } = &tree.nodes[0]
    else {
        panic!("expected a folder");
    };
    assert_eq!(name, "share");
    assert_eq!(path, "share");
    assert!(matches!(&children[0], BrowseNode::Folder { name, .. } if name == "music"));
}

#[test]
fn same_named_dirs_merge_regardless_of_order() {
    let tree = build_browse_tree(&vec![
        dir("share\\music\\album", &[("a.mp3", 1)]),
        dir("share\\music", &[("b.mp3", 2)]),
    ]);
    // A single "share" -> single "music" holding album/ and b.mp3.
    assert_eq!(tree.nodes.len(), 1);
    let BrowseNode::Folder {
        children: share_kids,
        ..
    } = &tree.nodes[0]
    else {
        panic!();
    };
    assert_eq!(share_kids.len(), 1); // just "music"
    let BrowseNode::Folder {
        children: music_kids,
        ..
    } = &share_kids[0]
    else {
        panic!();
    };
    // folders first (album), then files (b.mp3)
    assert_eq!(music_kids.len(), 2);
    assert!(matches!(&music_kids[0], BrowseNode::Folder { name, .. } if name == "album"));
    assert!(matches!(&music_kids[1], BrowseNode::File { name, .. } if name == "b.mp3"));
}

#[test]
fn file_paths_are_byte_exact_from_original_name() {
    // Trailing backslash and a root-level (empty name) directory.
    let tree = build_browse_tree(&vec![
        dir("share\\music\\", &[("song.flac", 5)]),
        dir("", &[("root.txt", 3)]),
    ]);
    let files = collect_all(&tree.nodes);
    assert!(files.contains(&("share\\music\\song.flac".to_string(), 5)));
    assert!(files.contains(&("root.txt".to_string(), 3)));
}

#[test]
fn flatten_only_descends_into_expanded_folders() {
    let tree = build_browse_tree(&vec![dir("a\\b", &[("f.mp3", 1)])]);
    let mut expanded: Vec<String> = Vec::new();
    // Nothing expanded: only the top folder "a" shows.
    assert_eq!(flatten_browse(&tree.nodes, &expanded).len(), 1);
    expanded.push("a".to_string());
    assert_eq!(flatten_browse(&tree.nodes, &expanded).len(), 2); // a, b
    expanded.push("a\\b".to_string());
    assert_eq!(flatten_browse(&tree.nodes, &expanded).len(), 3); // a, b, f
}

#[test]
fn files_under_collects_all_descendant_leaves() {
    let tree = build_browse_tree(&vec![
        dir("a\\b", &[("x.mp3", 1)]),
        dir("a\\c", &[("y.mp3", 2), ("z.mp3", 3)]),
    ]);
    let all = files_under(&tree.nodes[0]); // folder "a"
    assert_eq!(all.len(), 3);
}

#[test]
fn browse_state_load_auto_expands_top_level() {
    let mut state = BrowseState::loading("bob".to_string());
    state.load(&vec![dir("music\\album", &[("a.mp3", 1)])]);
    assert_eq!(state.status, BrowseStatus::Loaded);
    // Top-level "music" auto-expanded → music and album rows visible.
    assert!(state.rows().len() >= 2);

    let mut empty = BrowseState::loading("nobody".to_string());
    empty.load(&vec![]);
    assert_eq!(empty.status, BrowseStatus::Empty);
}

#[test]
fn each_level_lists_folders_then_files_by_name_ignoring_case() {
    let tree = build_browse_tree(&vec![
        dir("top", &[("b.mp3", 2), ("A.mp3", 1)]),
        dir("top\\Zed", &[]),
        dir("top\\alpha", &[]),
    ]);
    assert_eq!(tree.folder_count, 3);
    assert_eq!(tree.file_count, 2);
    let BrowseNode::Folder { children, .. } = &tree.nodes[0] else {
        panic!("expected a folder");
    };
    let names: Vec<String> = children
        .iter()
        .map(|n| match n {
            BrowseNode::Folder { name, .. } | BrowseNode::File { name, .. } => name.clone(),
        })
        .collect();
    assert_eq!(names, vec!["alpha", "Zed", "A.mp3", "b.mp3"]);
    let BrowseNode::Folder { path, .. } = &children[1] else {
        panic!("expected a folder");
    };
    assert_eq!(path, "top\\Zed");
}

#[test]
fn doubled_and_leading_backslashes_make_no_empty_folders() {
    let tree = build_browse_tree(&vec![dir("\\\\x\\\\y\\", &[("f", 7)])]);
    assert_eq!(tree.folder_count, 2);
    let BrowseNode::Folder { name, path, children } = &tree.nodes[0] else {
        panic!("expected a folder");
    };
    assert_eq!(name, "x");
    assert_eq!(path, "x");
    let BrowseNode::Folder { path, .. } = &children[0] else {
        panic!("expected a folder");
    };
    assert_eq!(path, "x\\y");
    assert_eq!(
        collect_all(&tree.nodes),
        vec![("\\\\x\\\\y\\f".to_string(), 7)]
    );
}

#[test]
fn find_node_reaches_nested_files_and_misses_unknown_paths() {
    let tree = build_browse_tree(&vec![dir("a\\b", &[("f.mp3", 1)])]);
    match find_node(&tree.nodes, "a\\b\\f.mp3") {
        Some(BrowseNode::File { size, .. }) => assert_eq!(*size, 1),
        other => panic!("unexpected {other:?}"),
    }
    assert!(matches!(
        find_node(&tree.nodes, "a\\b"),
        Some(BrowseNode::Folder { name, .. }) if name == "b"
    ));
    assert!(find_node(&tree.nodes, "a\\c").is_none());
}

#[test]
fn rows_carry_depth_and_open_state() {
    let mut state = BrowseState::loading("bob".to_string());
    state.load(&vec![dir("music\\album", &[("a.mp3", 1)])]);
    assert_eq!(state.expanded, vec!["music".to_string()]);
    let rows = state.rows();
    assert_eq!(rows.len(), 2);
    assert_eq!(rows[0].depth, 0);
    assert!(rows[0].is_folder && rows[0].expanded);
    assert_eq!(rows[1].depth, 1);
    assert_eq!(rows[1].path, "music\\album");
    assert!(!rows[1].expanded);
    assert_eq!(rows[1].size, None);
    assert_eq!(state.selected_row, 0);
}

use du_explorer::entry::{DuError, Entry, EntryKind};
use du_explorer::format::format_size;
use du_explorer::lister::{list, list_sorted};
use du_explorer::nav::{nav_step, NavState};
use du_explorer::render::{basename, render_lines, total_line};
use du_explorer::sorter::sort;
use du_explorer::tree::{aggregate, FsChild, FsNode};

fn file_entry(path: &str, size: u64) -> Entry {
    Entry { kind: EntryKind::File, path: String::from(path), size: Some(size) }
}

fn dir_entry(path: &str, size: u64) -> Entry {
    Entry { kind: EntryKind::Directory, path: String::from(path), size: Some(size) }
}

fn sample_tree() -> FsNode {
    FsNode::Dir {
        children: vec![
            FsChild { path: String::from("start/a.txt"), node: FsNode::File { size: 100 } },
            FsChild { path: String::from("start/b.txt"), node: FsNode::File { size: 500 } },
            FsChild {
                path: String::from("start/sub"),
                node: FsNode::Dir {
                    children: vec![FsChild {
                        path: String::from("start/sub/big.bin"),
                        node: FsNode::File { size: 1000 },
                    }],
                },
            },
        ],
    }
}

#[test]
fn format_size_bytes() {
    assert_eq!(format_size(0), "0 B");
    assert_eq!(format_size(1), "1 B");
    assert_eq!(format_size(1023), "1023 B");
}

#[test]
fn format_size_units() {
    assert_eq!(format_size(1536), "1.50 KB");
    assert_eq!(format_size(1073741824), "1.00 GB");
    assert_eq!(format_size(1024), "1.00 KB");
    assert_eq!(format_size(1048576), "1.00 MB");
    assert_eq!(format_size(1099511627776), "1.00 TB");
    assert_eq!(format_size(2560), "2.50 KB");
}

#[test]
fn format_size_rounds_to_nearest() {
    assert_eq!(format_size(1535), "1.50 KB");
    assert_eq!(format_size(1048575), "1024.00 KB");
    assert_eq!(format_size(1073741823), "1024.00 MB");
}

#[test]
fn format_size_rounds_ties_to_even() {
    // 1152 / 1024 = 1.125 and 1408 / 1024 = 1.375: the halves round to
    // the even hundredth, as float formatting does.
    assert_eq!(format_size(1152), "1.12 KB");
    assert_eq!(format_size(1408), "1.38 KB");
    assert_eq!(format_size(1152), format!("{:.2} KB", 1152f64 / 1024f64));
    assert_eq!(format_size(1408), format!("{:.2} KB", 1408f64 / 1024f64));
}

#[test]
fn list_sorted_fails_on_non_directory() {
    assert_eq!(list_sorted(&FsNode::File { size: 9 }), Err(DuError::Io));
}

#[test]
fn aggregate_sums_all_files() {
    let tree = sample_tree();
    assert_eq!(aggregate(&tree), Ok(1600));
}

#[test]
fn aggregate_empty_directory() {
    let tree = FsNode::Dir { children: vec![] };
    assert_eq!(aggregate(&tree), Ok(0));
}

#[test]
fn aggregate_skips_other_entries() {
    let tree = FsNode::Dir {
        children: vec![
            FsChild { path: String::from("d/dev"), node: FsNode::Other },
            FsChild { path: String::from("d/f"), node: FsNode::File { size: 7 } },
        ],
    };
    assert_eq!(aggregate(&tree), Ok(7));
}

#[test]
fn aggregate_fails_on_non_directory() {
    assert_eq!(aggregate(&FsNode::File { size: 3 }), Err(DuError::Io));
    assert_eq!(aggregate(&FsNode::Unreadable), Err(DuError::Io));
}

#[test]
fn aggregate_fails_on_unreadable_child() {
    let tree = FsNode::Dir {
        children: vec![FsChild { path: String::from("d/x"), node: FsNode::Unreadable }],
    };
    assert_eq!(aggregate(&tree), Err(DuError::Io));
}

#[test]
fn aggregate_reports_overflow() {
    let tree = FsNode::Dir {
        children: vec![
            FsChild { path: String::from("d/huge"), node: FsNode::File { size: u64::MAX } },
            FsChild { path: String::from("d/one"), node: FsNode::File { size: 1 } },
        ],
    };
    assert_eq!(aggregate(&tree), Err(DuError::TooLarge));
}

#[test]
fn list_classifies_and_sizes() {
    let tree = sample_tree();
    let entries = list(&tree).unwrap();
    assert_eq!(entries.len(), 3);
    assert_eq!(entries[0].kind, EntryKind::File);
    assert_eq!(entries[0].path, "start/a.txt");
    assert_eq!(entries[0].size, Some(100));
    assert_eq!(entries[2].kind, EntryKind::Directory);
    assert_eq!(entries[2].path, "start/sub");
    assert_eq!(entries[2].size, Some(1000));
}

#[test]
fn list_rejects_unsupported_top_level_entry() {
    let tree = FsNode::Dir {
        children: vec![FsChild { path: String::from("d/dev"), node: FsNode::Other }],
    };
    assert_eq!(list(&tree), Err(DuError::UnsupportedEntryType));
}

#[test]
fn list_propagates_io_error() {
    let tree = FsNode::Dir {
        children: vec![FsChild { path: String::from("d/x"), node: FsNode::Unreadable }],
    };
    assert_eq!(list(&tree), Err(DuError::Io));
    assert_eq!(list(&FsNode::Unreadable), Err(DuError::Io));
}

#[test]
fn list_propagates_overflow_of_subdirectory() {
    let tree = FsNode::Dir {
        children: vec![FsChild {
            path: String::from("d/sub"),
            node: FsNode::Dir {
                children: vec![
                    FsChild { path: String::from("d/sub/a"), node: FsNode::File { size: u64::MAX } },
                    FsChild { path: String::from("d/sub/b"), node: FsNode::File { size: 1 } },
                ],
            },
        }],
    };
    assert_eq!(list(&tree), Err(DuError::TooLarge));
}

fn paths(entries: &[Entry]) -> Vec<String> {
    entries.iter().map(|e| e.path.clone()).collect()
}

#[test]
fn scenario_listing_order() {
    // Files of 100 and 500 bytes beside a subdirectory holding 1000 bytes:
    // the directory leads, then the files by descending size.
    let tree = sample_tree();
    let entries = list_sorted(&tree).unwrap();
    assert_eq!(paths(&entries), vec!["start/sub", "start/b.txt", "start/a.txt"]);
    assert_eq!(entries[0].kind, EntryKind::Directory);
    assert_eq!(entries[0].size, Some(1000));
    assert_eq!(entries[1].size, Some(500));
    assert_eq!(entries[2].size, Some(100));
}

#[test]
fn sort_directories_before_files() {
    let input = vec![file_entry("f", 1_000_000), dir_entry("d", 1)];
    let sorted = sort(&input);
    assert_eq!(paths(&sorted), vec!["d", "f"]);
}

#[test]
fn sort_descending_within_kind_and_missing_size_last() {
    let mut input = vec![
        file_entry("small", 5),
        Entry { kind: EntryKind::File, path: String::from("unknown"), size: None },
        file_entry("large", 50),
    ];
    input.push(dir_entry("d2", 10));
    input.push(dir_entry("d1", 20));
    let sorted = sort(&input);
    assert_eq!(paths(&sorted), vec!["d1", "d2", "large", "small", "unknown"]);
}

#[test]
fn sort_is_idempotent_and_stable() {
    let input = vec![file_entry("x", 5), file_entry("y", 5), dir_entry("z", 5)];
    let once = sort(&input);
    let twice = sort(&once);
    assert_eq!(paths(&once), vec!["z", "x", "y"]);
    assert_eq!(paths(&twice), paths(&once));
}

fn browsing(current: &str, history: &[&str]) -> NavState {
    NavState::Browsing {
        current: String::from(current),
        history: history.iter().map(|s| String::from(*s)).collect(),
    }
}

fn expect_browsing(state: NavState) -> (String, Vec<String>) {
    match state {
        NavState::Browsing { current, history } => (current, history),
        NavState::Exited => panic!("expected a browsing state"),
    }
}

#[test]
fn ascend_at_session_root_is_a_no_op() {
    // One history element: the first ascent empties it in place, the next
    // one changes nothing.
    let listing: Vec<Entry> = Vec::new();
    let (s1, invalid1) = nav_step(browsing("start", &["start"]), -1, &listing);
    assert!(!invalid1);
    let (cur1, hist1) = expect_browsing(s1);
    assert_eq!(cur1, "start");
    assert!(hist1.is_empty());

    let (s2, invalid2) = nav_step(browsing("start", &[]), -1, &listing);
    assert!(!invalid2);
    let (cur2, hist2) = expect_browsing(s2);
    assert_eq!(cur2, "start");
    assert!(hist2.is_empty());
}

#[test]
fn scenario_descend_and_return() {
    // Descending into the first (largest) entry pushes the directory it
    // left; ascending thereafter returns to it with the history emptied.
    let tree = sample_tree();
    let entries = list_sorted(&tree).unwrap();

    let (s1, invalid1) = nav_step(browsing("start", &[]), 1, &entries);
    assert!(!invalid1);
    let (cur1, hist1) = expect_browsing(s1);
    assert_eq!(cur1, "start/sub");
    assert_eq!(hist1, vec!["start"]);

    let (s2, invalid2) = nav_step(browsing("start/sub", &["start"]), -1, &entries);
    assert!(!invalid2);
    let (cur2, hist2) = expect_browsing(s2);
    assert_eq!(cur2, "start");
    assert!(hist2.is_empty());
}

#[test]
fn descend_and_return_from_session_start() {
    // The same walk from the session's initial state, whose history
    // already holds the starting directory.
    let tree = sample_tree();
    let entries = list_sorted(&tree).unwrap();

    let (s1, invalid1) = nav_step(browsing("start", &["start"]), 1, &entries);
    assert!(!invalid1);
    let (cur1, hist1) = expect_browsing(s1);
    assert_eq!(cur1, "start/sub");
    assert_eq!(hist1, vec!["start", "start"]);

    let (s2, invalid2) = nav_step(browsing("start/sub", &["start", "start"]), -1, &entries);
    assert!(!invalid2);
    let (cur2, hist2) = expect_browsing(s2);
    assert_eq!(cur2, "start");
    assert_eq!(hist2, vec!["start"]);
}

#[test]
fn choosing_a_file_does_nothing() {
    let tree = sample_tree();
    let entries = list_sorted(&tree).unwrap();
    let (s, invalid) = nav_step(browsing("start", &["start"]), 2, &entries);
    assert!(!invalid);
    let (cur, hist) = expect_browsing(s);
    assert_eq!(cur, "start");
    assert_eq!(hist, vec!["start"]);
}

#[test]
fn quit_exits() {
    let listing: Vec<Entry> = Vec::new();
    let (s, invalid) = nav_step(browsing("start", &["start"]), 0, &listing);
    assert!(!invalid);
    assert!(matches!(s, NavState::Exited));
}

#[test]
fn scenario_empty_directory() {
    // An empty directory lists nothing, closes with a zero total, and any
    // choice besides quit and ascend is invalid and changes nothing.
    let tree = FsNode::Dir { children: vec![] };
    let entries = list_sorted(&tree).unwrap();
    assert_eq!(entries.len(), 0);
    assert_eq!(render_lines(&entries).len(), 0);
    assert_eq!(total_line(entries.len()), "Total entries: 0");

    for choice in [1isize, 5, -2, 100] {
        let (s, invalid) = nav_step(browsing("start", &["start"]), choice, &entries);
        assert!(invalid);
        let (cur, hist) = expect_browsing(s);
        assert_eq!(cur, "start");
        assert_eq!(hist, vec!["start"]);
    }
}

#[test]
fn basename_takes_last_component() {
    assert_eq!(basename(&String::from("a/b/c.txt")), "c.txt");
    assert_eq!(basename(&String::from("plain")), "plain");
    assert_eq!(basename(&String::from("trailing/")), "");
    assert_eq!(basename(&String::from("")), "");
}

#[test]
fn render_line_with_size_matches_layout() {
    let tree = sample_tree();
    let entries = list_sorted(&tree).unwrap();
    let lines = render_lines(&entries);
    assert_eq!(lines.len(), 3);

    // The largest entry fills the whole bar; the colouring must come from
    // the terminal library, not from the text handed to it.
    let full_bar: String = std::iter::repeat('=').take(60).collect();
    let expected0 = format!(
        "{:<3} {} [{}] {} [{}]",
        1,
        "D",
        crossterm::style::Stylize::cyan(full_bar.as_str()),
        "sub",
        "1000 B"
    );
    assert_eq!(lines[0], expected0);
    assert_ne!(lines[0], format!("{:<3} {} [{}] {} [{}]", 1, "D", full_bar, "sub", "1000 B"));

    // 500 of 1000 bytes fills 30 of 60 columns.
    let half_bar: String = std::iter::repeat('=').take(30).collect();
    let expected1 = format!(
        "{:<3} {} [{}] {} [{}]",
        2,
        "F",
        crossterm::style::Stylize::cyan(half_bar.as_str()),
        "b.txt",
        "500 B"
    );
    assert_eq!(lines[1], expected1);
}

#[test]
fn render_line_without_size_has_no_bar() {
    let entries = vec![Entry {
        kind: EntryKind::File,
        path: String::from("d/odd"),
        size: None,
    }];
    let lines = render_lines(&entries);
    assert_eq!(lines[0], "1   F odd");
}

#[test]
fn render_total_line() {
    assert_eq!(total_line(42), "Total entries: 42");
}

use ditloop_desktop::git::{char_to_status, normalize, parse_porcelain_v2, ChangeKind};

#[test]
fn test_char_to_status() {
    assert_eq!(char_to_status('M'), "modified");
    assert_eq!(char_to_status('A'), "added");
    assert_eq!(char_to_status('D'), "deleted");
    assert_eq!(char_to_status('R'), "renamed");
    assert_eq!(char_to_status('C'), "copied");
    assert_eq!(char_to_status('T'), "type-changed");
    assert_eq!(char_to_status('X'), "unknown");
}

#[test]
fn test_parse_porcelain_v2_branch_info() {
    let output = "# branch.oid abc123\n# branch.head main\n# branch.upstream origin/main\n# branch.ab +3 -1\n";
    let status = parse_porcelain_v2(output);
    assert_eq!(status.branch, "main");
    assert_eq!(status.ahead, 3);
    assert_eq!(status.behind, 1);
}

#[test]
fn test_parse_porcelain_v2_staged_and_unstaged() {
    let output = "# branch.head feat/test\n1 M. N... 100644 100644 100644 abc123 def456 src/main.rs\n1 .M N... 100644 100644 100644 abc123 def456 src/lib.rs\n";
    let status = parse_porcelain_v2(output);
    assert_eq!(status.staged.len(), 1);
    assert_eq!(status.staged[0].path, "src/main.rs");
    assert_eq!(status.staged[0].status, "modified");
    assert_eq!(status.unstaged.len(), 1);
    assert_eq!(status.unstaged[0].path, "src/lib.rs");
    assert_eq!(status.unstaged[0].status, "modified");
}

#[test]
fn test_parse_porcelain_v2_untracked() {
    let output = "# branch.head main\n? new_file.txt\n? another.rs\n";
    let status = parse_porcelain_v2(output);
    assert_eq!(status.untracked, vec!["new_file.txt", "another.rs"]);
}

#[test]
fn test_parse_porcelain_v2_empty() {
    let status = parse_porcelain_v2("");
    assert_eq!(status.branch, "");
    assert_eq!(status.ahead, 0);
    assert_eq!(status.behind, 0);
    assert!(status.staged.is_empty());
    assert!(status.unstaged.is_empty());
    assert!(status.untracked.is_empty());
}

#[test]
fn test_parse_porcelain_v2_detached_head() {
    let output = "# branch.head (detached)\n# branch.oid abc123\n";
    let status = parse_porcelain_v2(output);
    assert_eq!(status.branch, "(detached)");
}

#[test]
fn test_parse_porcelain_v2_added_file() {
    let output = "# branch.head main\n1 A. N... 000000 100644 100644 0000000 abc1234 new_file.ts\n";
    let status = parse_porcelain_v2(output);
    assert_eq!(status.staged.len(), 1);
    assert_eq!(status.staged[0].status, "added");
}

#[test]
fn normalize_maps_each_code() {
    assert_eq!(normalize('M'), ChangeKind::Modified);
    assert_eq!(normalize('A'), ChangeKind::Added);
    assert_eq!(normalize('D'), ChangeKind::Deleted);
    assert_eq!(normalize('R'), ChangeKind::Renamed);
    assert_eq!(normalize('C'), ChangeKind::Copied);
    assert_eq!(normalize('T'), ChangeKind::TypeChanged);
    assert_eq!(normalize('X'), ChangeKind::Unknown);
    assert_eq!(normalize('.'), ChangeKind::Unknown);
    assert_eq!(normalize('m'), ChangeKind::Unknown);
    assert_eq!(ChangeKind::TypeChanged.label(), "type-changed");
}

#[test]
fn status_head_and_counts_only() {
    let status = parse_porcelain_v2("# branch.head main\n# branch.ab +3 -1\n");
    assert_eq!(status.branch, "main");
    assert_eq!(status.ahead, 3);
    assert_eq!(status.behind, 1);
    assert!(status.staged.is_empty());
    assert!(status.unstaged.is_empty());
    assert!(status.untracked.is_empty());
}

#[test]
fn status_modified_on_each_side() {
    let status = parse_porcelain_v2(
        "1 M. N... 100644 100644 100644 abc123 def456 src/main.rs\n1 .M N... 100644 100644 100644 abc123 def456 src/lib.rs\n",
    );
    assert_eq!(status.staged.len(), 1);
    assert_eq!(status.staged[0].path, "src/main.rs");
    assert_eq!(status.staged[0].status, "modified");
    assert_eq!(status.unstaged.len(), 1);
    assert_eq!(status.unstaged[0].path, "src/lib.rs");
    assert_eq!(status.unstaged[0].status, "modified");
    assert_eq!(status.branch, "");
}

#[test]
fn status_untracked_only() {
    let status = parse_porcelain_v2("? a.txt\n? b.rs\n");
    assert_eq!(status.untracked, vec!["a.txt", "b.rs"]);
    assert_eq!(status.branch, "");
    assert_eq!(status.ahead, 0);
    assert_eq!(status.behind, 0);
    assert!(status.staged.is_empty());
    assert!(status.unstaged.is_empty());
}

#[test]
fn status_every_code_pair_places_one_entry_per_side() {
    let codes = ['M', 'A', 'D', 'R', 'C', 'T', '.'];
    let labels = ["modified", "added", "deleted", "renamed", "copied", "type-changed"];
    for (xi, x) in codes.iter().enumerate() {
        for (yi, y) in codes.iter().enumerate() {
            let line = format!("1 {}{} N... 100644 100644 100644 abc def p.txt\n", x, y);
            let status = parse_porcelain_v2(&line);
            if *x == '.' {
                assert!(status.staged.is_empty());
            } else {
                assert_eq!(status.staged.len(), 1);
                assert_eq!(status.staged[0].path, "p.txt");
                assert_eq!(status.staged[0].status, labels[xi]);
            }
            if *y == '.' {
                assert!(status.unstaged.is_empty());
            } else {
                assert_eq!(status.unstaged.len(), 1);
                assert_eq!(status.unstaged[0].path, "p.txt");
                assert_eq!(status.unstaged[0].status, labels[yi]);
            }
        }
    }
}

#[test]
fn status_unknown_code_is_unknown_kind() {
    let status = parse_porcelain_v2("1 XU N... 100644 100644 100644 abc def odd.rs\n");
    assert_eq!(status.staged[0].status, "unknown");
    assert_eq!(status.unstaged[0].status, "unknown");
}

#[test]
fn status_rename_record_takes_last_word_as_path() {
    let status = parse_porcelain_v2(
        "2 R. N... 100644 100644 100644 abc def R100 new.rs\told.rs\n",
    );
    assert_eq!(status.staged.len(), 1);
    assert_eq!(status.staged[0].path, "old.rs");
    assert_eq!(status.staged[0].status, "renamed");
}

#[test]
fn status_short_change_line_is_skipped() {
    let status = parse_porcelain_v2("1 M. N... 100644 100644 abc def x.rs\n");
    assert!(status.staged.is_empty());
    assert!(status.unstaged.is_empty());
}

#[test]
fn status_bad_counts_default_to_zero() {
    let status = parse_porcelain_v2("# branch.ab +x -99999999999\n");
    assert_eq!(status.ahead, 0);
    assert_eq!(status.behind, 0);
    let status = parse_porcelain_v2("# branch.ab +4294967295 -0\n");
    assert_eq!(status.ahead, 4294967295);
    assert_eq!(status.behind, 0);
    let status = parse_porcelain_v2("# branch.ab +3\n");
    assert_eq!(status.ahead, 0);
}

#[test]
fn status_crlf_lines_and_unknown_lines() {
    let status = parse_porcelain_v2("# branch.head dev\r\nu UU N... x\r\n? file with space.txt\r\n");
    assert_eq!(status.branch, "dev");
    assert_eq!(status.untracked, vec!["file with space.txt"]);
}

#[test]
fn status_last_head_line_wins() {
    let status = parse_porcelain_v2("# branch.head one\n# branch.head two");
    assert_eq!(status.branch, "two");
}

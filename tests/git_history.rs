use ditloop_desktop::git::{diff_args, log_args, parse_branch_list, parse_git_log};

#[test]
fn log_groups_five_lines_per_commit() {
    let out = "h1\ns1\nfirst\nAnn\n2024-01-02 10:00:00 +0000\nh2\ns2\n\nBob\n2024-01-01 09:00:00 +0000\n";
    let commits = parse_git_log(out);
    assert_eq!(commits.len(), 2);
    assert_eq!(commits[0].hash, "h1");
    assert_eq!(commits[0].short_hash, "s1");
    assert_eq!(commits[0].message, "first");
    assert_eq!(commits[0].author, "Ann");
    assert_eq!(commits[0].date, "2024-01-02 10:00:00 +0000");
    assert_eq!(commits[1].hash, "h2");
    assert_eq!(commits[1].message, "");
    assert_eq!(commits[1].author, "Bob");
}

#[test]
fn log_drops_incomplete_trailing_group() {
    let out = "h1\ns1\nm1\na1\nd1\nh2\ns2\nm2\n";
    let commits = parse_git_log(out);
    assert_eq!(commits.len(), 1);
    assert_eq!(commits[0].date, "d1");
    assert!(parse_git_log("").is_empty());
    assert!(parse_git_log("a\nb\nc\nd\n").is_empty());
}

#[test]
fn log_arguments() {
    assert_eq!(log_args(20), vec!["log", "-20", "--format=%H%n%h%n%s%n%an%n%ai"]);
    assert_eq!(log_args(0)[1], "-0");
    assert_eq!(diff_args(true), vec!["diff", "--cached"]);
    assert_eq!(diff_args(false), vec!["diff"]);
}

#[test]
fn branches_current_remote_and_alias() {
    let branches = parse_branch_list("* main\n  remotes/origin/HEAD -> origin/main\n  remotes/origin/main\n");
    assert_eq!(branches.len(), 2);
    assert_eq!(branches[0].name, "main");
    assert!(branches[0].is_current);
    assert!(!branches[0].is_remote);
    assert_eq!(branches[1].name, "origin/main");
    assert!(!branches[1].is_current);
    assert!(branches[1].is_remote);
}

#[test]
fn branches_keep_local_and_remote_namesakes() {
    let branches = parse_branch_list("  dev\n* feature/x\n  remotes/origin/dev\n");
    let names: Vec<&str> = branches.iter().map(|b| b.name.as_str()).collect();
    assert_eq!(names, vec!["dev", "feature/x", "origin/dev"]);
    assert!(branches[1].is_current);
    assert!(branches[2].is_remote);
}

#[test]
fn branches_drop_every_alias_line() {
    let branches = parse_branch_list("  a->b\n  remotes/up/HEAD -> up/x\n  ok\n");
    assert_eq!(branches.len(), 1);
    assert_eq!(branches[0].name, "ok");
    assert!(parse_branch_list("").is_empty());
}

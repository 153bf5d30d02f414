//! The version-control output parsers: the porcelain-v2 status protocol, the
//! five-lines-per-commit log dump and the branch listing, with the change-code
//! normaliser they share.

use vstd::prelude::*;
use crate::number::{count_or_zero, decimal, decimal_string, parse_count};
use crate::text::{
    chars_of, has_infix, has_prefix, lines_of, seqs_of, split_lines, split_words, starts_with,
    string_of, strings_view, strip_all, strip_repeated, trim, trimmed, words_of, contains,
    chars_between,
};

verus! {

/// Canonical kind of a change recorded for one side (index or worktree).
#[derive(Clone, Copy, Debug, PartialEq, Eq, Structural)]
pub enum ChangeKind {
    Modified,
    Added,
    Deleted,
    Renamed,
    Copied,
    TypeChanged,
    Unknown,
}

/// The kind that a one-character status code stands for.
pub open spec fn kind_of(c: char) -> ChangeKind {
    if c == 'M' {
        ChangeKind::Modified
    } else if c == 'A' {
        ChangeKind::Added
    } else if c == 'D' {
        ChangeKind::Deleted
    } else if c == 'R' {
        ChangeKind::Renamed
    } else if c == 'C' {
        ChangeKind::Copied
    } else if c == 'T' {
        ChangeKind::TypeChanged
    } else {
        ChangeKind::Unknown
    }
}

/// The text under which a kind is reported.
pub open spec fn kind_label(k: ChangeKind) -> Seq<char> {
    match k {
        ChangeKind::Modified => "modified"@,
        ChangeKind::Added => "added"@,
        ChangeKind::Deleted => "deleted"@,
        ChangeKind::Renamed => "renamed"@,
        ChangeKind::Copied => "copied"@,
        ChangeKind::TypeChanged => "type-changed"@,
        ChangeKind::Unknown => "unknown"@,
    }
}

/// Maps a one-character status code to its kind; every character has one.
pub fn normalize(c: char) -> (r: ChangeKind)
    ensures
        r == kind_of(c),
{
    match c {
        'M' => ChangeKind::Modified,
        'A' => ChangeKind::Added,
        'D' => ChangeKind::Deleted,
        'R' => ChangeKind::Renamed,
        'C' => ChangeKind::Copied,
        'T' => ChangeKind::TypeChanged,
        _ => ChangeKind::Unknown,
    }
}

impl ChangeKind {
    /// The text under which this kind is reported.
    pub fn label(&self) -> (r: String)
        ensures
            r@ == kind_label(*self),
    {
        match self {
            ChangeKind::Modified => String::from_str("modified"),
            ChangeKind::Added => String::from_str("added"),
            ChangeKind::Deleted => String::from_str("deleted"),
            ChangeKind::Renamed => String::from_str("renamed"),
            ChangeKind::Copied => String::from_str("copied"),
            ChangeKind::TypeChanged => String::from_str("type-changed"),
            ChangeKind::Unknown => String::from_str("unknown"),
        }
    }
}

/// The reported text for a one-character status code.
pub fn char_to_status(c: char) -> (r: String)
    ensures
        r@ == kind_label(kind_of(c)),
{
    normalize(c).label()
}

/// One changed path and the reported text of its change kind.
#[derive(Debug)]
pub struct FileChange {
    pub path: String,
    pub status: String,
}

impl View for FileChange {
    type V = (Seq<char>, Seq<char>);

    open spec fn view(&self) -> (Seq<char>, Seq<char>) {
        (self.path@, self.status@)
    }
}

/// Structured result of a status query.
#[derive(Debug)]
pub struct GitStatus {
    pub branch: String,
    pub ahead: u32,
    pub behind: u32,
    pub staged: Vec<FileChange>,
    pub unstaged: Vec<FileChange>,
    pub untracked: Vec<String>,
}

/// The mathematical content of a `GitStatus`.
pub ghost struct StatusModel {
    pub branch: Seq<char>,
    pub ahead: u32,
    pub behind: u32,
    pub staged: Seq<(Seq<char>, Seq<char>)>,
    pub unstaged: Seq<(Seq<char>, Seq<char>)>,
    pub untracked: Seq<Seq<char>>,
}

pub open spec fn changes_view(v: Seq<FileChange>) -> Seq<(Seq<char>, Seq<char>)> {
    v.map_values(|f: FileChange| f@)
}

impl View for GitStatus {
    type V = StatusModel;

    open spec fn view(&self) -> StatusModel {
        StatusModel {
            branch: self.branch@,
            ahead: self.ahead,
            behind: self.behind,
            staged: changes_view(self.staged@),
            unstaged: changes_view(self.unstaged@),
            untracked: strings_view(self.untracked@),
        }
    }
}

pub open spec fn head_marker() -> Seq<char> {
    "# branch.head "@
}

pub open spec fn ab_marker() -> Seq<char> {
    "# branch.ab "@
}

pub open spec fn ordinary_marker() -> Seq<char> {
    "1 "@
}

pub open spec fn rename_marker() -> Seq<char> {
    "2 "@
}

pub open spec fn untracked_marker() -> Seq<char> {
    "? "@
}

/// The snapshot before any line is read.
pub open spec fn empty_status() -> StatusModel {
    StatusModel {
        branch: Seq::empty(),
        ahead: 0,
        behind: 0,
        staged: Seq::empty(),
        unstaged: Seq::empty(),
        untracked: Seq::empty(),
    }
}

/// First character of a code, `.` when it has none.
pub open spec fn code_x(xy: Seq<char>) -> char {
    if xy.len() > 0 {
        xy[0]
    } else {
        '.'
    }
}

/// Second character of a code, `.` when it has none.
pub open spec fn code_y(xy: Seq<char>) -> char {
    if xy.len() > 1 {
        xy[1]
    } else {
        '.'
    }
}

/// A change list with the entry for `code` on `path` added, unless `code` is `.`.
pub open spec fn record_change(
    list: Seq<(Seq<char>, Seq<char>)>,
    path: Seq<char>,
    code: char,
) -> Seq<(Seq<char>, Seq<char>)> {
    if code != '.' {
        list.push((path, kind_label(kind_of(code))))
    } else {
        list
    }
}

/// What one line of the status protocol does to the snapshot.
pub open spec fn status_step(m: StatusModel, line: Seq<char>) -> StatusModel {
    if starts_with(line, head_marker()) {
        StatusModel { branch: line.skip(head_marker().len() as int), ..m }
    } else if starts_with(line, ab_marker()) {
        let parts = words_of(line);
        if parts.len() >= 4 {
            StatusModel {
                ahead: count_or_zero(strip_all(parts[2], seq!['+'])),
                behind: count_or_zero(strip_all(parts[3], seq!['-'])),
                ..m
            }
        } else {
            m
        }
    } else if starts_with(line, ordinary_marker()) || starts_with(line, rename_marker()) {
        let parts = words_of(line);
        if parts.len() >= 9 {
            StatusModel {
                staged: record_change(m.staged, parts.last(), code_x(parts[1])),
                unstaged: record_change(m.unstaged, parts.last(), code_y(parts[1])),
                ..m
            }
        } else {
            m
        }
    } else if starts_with(line, untracked_marker()) {
        StatusModel {
            untracked: m.untracked.push(line.skip(untracked_marker().len() as int)),
            ..m
        }
    } else {
        m
    }
}

/// The snapshot after reading `lines` in order.
pub open spec fn status_of_lines(lines: Seq<Seq<char>>) -> StatusModel
    decreases lines.len(),
{
    if lines.len() == 0 {
        empty_status()
    } else {
        status_step(status_of_lines(lines.drop_last()), lines.last())
    }
}

/// The snapshot that status protocol text describes.
pub open spec fn porcelain_status(output: Seq<char>) -> StatusModel {
    status_of_lines(lines_of(output))
}

fn new_change(path: &Vec<char>, code: char) -> (r: FileChange)
    ensures
        r@ == (path@, kind_label(kind_of(code))),
{
    FileChange { path: string_of(path.as_slice()), status: char_to_status(code) }
}

fn apply_status_line(st: &mut GitStatus, line: &Vec<char>)
    ensures
        final(st)@ == status_step(old(st)@, line@),
{
    let head = chars_of("# branch.head ");
    let ab = chars_of("# branch.ab ");
    let ordinary = chars_of("1 ");
    let rename = chars_of("2 ");
    let untracked = chars_of("? ");
    if has_prefix(line, &head) {
        let rest = chars_between(line, head.len(), line.len());
        st.branch = string_of(rest.as_slice());
        assert(st@ =~= status_step(old(st)@, line@));
    } else if has_prefix(line, &ab) {
        let parts = split_words(line);
        assert(parts@.len() == words_of(line@).len());
        if parts.len() >= 4 {
            let plus = vec!['+'];
            let minus = vec!['-'];
            assert(parts@[2]@ == words_of(line@)[2]);
            assert(parts@[3]@ == words_of(line@)[3]);
            st.ahead = parse_count(&strip_repeated(&parts[2], &plus));
            st.behind = parse_count(&strip_repeated(&parts[3], &minus));
            assert(plus@ =~= seq!['+']);
            assert(minus@ =~= seq!['-']);
        }
        assert(st@ =~= status_step(old(st)@, line@));
    } else if has_prefix(line, &ordinary) || has_prefix(line, &rename) {
        let parts = split_words(line);
        let n = parts.len();
        assert(n == words_of(line@).len());
        if n >= 9 {
            let xy = &parts[1];
            let path = &parts[n - 1];
            assert(xy@ == words_of(line@)[1]);
            assert(path@ == words_of(line@).last());
            let x = if xy.len() > 0 {
                xy[0]
            } else {
                '.'
            };
            let y = if xy.len() > 1 {
                xy[1]
            } else {
                '.'
            };
            if x != '.' {
                let ghost before = st.staged@;
                st.staged.push(new_change(path, x));
                assert(changes_view(st.staged@) =~= changes_view(before).push(
                    (path@, kind_label(kind_of(x))),
                ));
            }
            if y != '.' {
                let ghost before = st.unstaged@;
                st.unstaged.push(new_change(path, y));
                assert(changes_view(st.unstaged@) =~= changes_view(before).push(
                    (path@, kind_label(kind_of(y))),
                ));
            }
        }
        assert(st@ =~= status_step(old(st)@, line@));
    } else if has_prefix(line, &untracked) {
        let rest = chars_between(line, untracked.len(), line.len());
        let ghost before = st.untracked@;
        st.untracked.push(string_of(rest.as_slice()));
        assert(strings_view(st.untracked@) =~= strings_view(before).push(rest@));
        assert(st@ =~= status_step(old(st)@, line@));
    }
}

/// Parses status protocol text (porcelain v2 with branch headers) into a
/// snapshot; malformed or unknown lines are skipped, never an error.
pub fn parse_porcelain_v2(output: &str) -> (r: GitStatus)
    ensures
        r@ == porcelain_status(output@),
{
    let chars = chars_of(output);
    let lines = split_lines(&chars);
    let mut st = GitStatus {
        branch: String::new(),
        ahead: 0,
        behind: 0,
        staged: Vec::new(),
        unstaged: Vec::new(),
        untracked: Vec::new(),
    };
    let ghost ls = seqs_of(lines@);
    assert(changes_view(st.staged@) =~= Seq::empty());
    assert(changes_view(st.unstaged@) =~= Seq::empty());
    assert(strings_view(st.untracked@) =~= Seq::empty());
    assert(st@ =~= empty_status());
    assert(ls.take(0) =~= Seq::<Seq<char>>::empty());
    for i in 0..lines.len()
        invariant
            ls == seqs_of(lines@),
            ls == lines_of(chars@),
            st@ == status_of_lines(ls.take(i as int)),
    {
        apply_status_line(&mut st, &lines[i]);
        assert(ls.take(i + 1).drop_last() =~= ls.take(i as int));
    }
    assert(ls.take(lines@.len() as int) =~= ls);
    st
}


/// One commit of the history.
#[derive(Debug)]
pub struct GitCommit {
    pub hash: String,
    pub short_hash: String,
    pub message: String,
    pub author: String,
    pub date: String,
}

/// The mathematical content of a `GitCommit`.
pub ghost struct CommitModel {
    pub hash: Seq<char>,
    pub short_hash: Seq<char>,
    pub message: Seq<char>,
    pub author: Seq<char>,
    pub date: Seq<char>,
}

impl View for GitCommit {
    type V = CommitModel;

    open spec fn view(&self) -> CommitModel {
        CommitModel {
            hash: self.hash@,
            short_hash: self.short_hash@,
            message: self.message@,
            author: self.author@,
            date: self.date@,
        }
    }
}

pub open spec fn commits_view(v: Seq<GitCommit>) -> Seq<CommitModel> {
    v.map_values(|c: GitCommit| c@)
}

/// The records that a flat log dump describes: each complete group of five
/// lines is hash, short hash, subject, author and date; a shorter trailing
/// group is dropped.
pub open spec fn log_commits(lines: Seq<Seq<char>>) -> Seq<CommitModel> {
    Seq::new(
        lines.len() / 5,
        |i: int|
            CommitModel {
                hash: lines[5 * i],
                short_hash: lines[5 * i + 1],
                message: lines[5 * i + 2],
                author: lines[5 * i + 3],
                date: lines[5 * i + 4],
            },
    )
}

/// Parses a log dump of five lines per commit into commit records, in order.
pub fn parse_git_log(output: &str) -> (r: Vec<GitCommit>)
    ensures
        commits_view(r@) == log_commits(lines_of(output@)),
{
    let chars = chars_of(output);
    let lines = split_lines(&chars);
    let ghost ls = seqs_of(lines@);
    let n = lines.len();
    let groups = n / 5;
    let mut commits: Vec<GitCommit> = Vec::new();
    for g in 0..groups
        invariant
            n == lines@.len(),
            groups == n / 5,
            ls == seqs_of(lines@),
            commits_view(commits@) =~= log_commits(ls).take(g as int),
    {
        assert(5 * g + 4 < n) by (nonlinear_arith)
            requires
                g < groups,
                groups == n / 5,
        ;
        let b = 5 * g;
        let c = GitCommit {
            hash: string_of(lines[b].as_slice()),
            short_hash: string_of(lines[b + 1].as_slice()),
            message: string_of(lines[b + 2].as_slice()),
            author: string_of(lines[b + 3].as_slice()),
            date: string_of(lines[b + 4].as_slice()),
        };
        let ghost before = commits@;
        commits.push(c);
        assert(commits_view(commits@) =~= commits_view(before).push(c@));
        assert(log_commits(ls).take(g + 1) =~= log_commits(ls).take(g as int).push(c@));
    }
    assert(log_commits(ls).take(groups as int) =~= log_commits(ls));
    commits
}

/// The arguments of the history query for the latest `count` commits, in
/// the five-lines-per-commit format that `parse_git_log` reads.
pub fn log_args(count: u32) -> (r: Vec<String>)
    ensures
        strings_view(r@) == seq![
            "log"@,
            seq!['-'] + decimal(count as nat),
            "--format=%H%n%h%n%s%n%an%n%ai"@,
        ],
{
    let mut limit = String::from_str("-");
    limit.append(decimal_string(count as u64).as_str());
    let mut r: Vec<String> = Vec::new();
    r.push(String::from_str("log"));
    r.push(limit);
    r.push(String::from_str("--format=%H%n%h%n%s%n%an%n%ai"));
    proof {
        reveal_strlit("-");
        assert("-"@.len() == 1);
        assert("-"@ =~= seq!['-']);
    }
    assert(strings_view(r@) =~= seq![
        "log"@,
        seq!['-'] + decimal(count as nat),
        "--format=%H%n%h%n%s%n%an%n%ai"@,
    ]);
    r
}

/// The arguments of the diff query, of the index when `staged`, else of the
/// worktree.
pub fn diff_args(staged: bool) -> (r: Vec<String>)
    ensures
        staged ==> strings_view(r@) == seq!["diff"@, "--cached"@],
        !staged ==> strings_view(r@) == seq!["diff"@],
{
    let mut r: Vec<String> = Vec::new();
    r.push(String::from_str("diff"));
    if staged {
        r.push(String::from_str("--cached"));
    }
    assert(staged ==> strings_view(r@) =~= seq!["diff"@, "--cached"@]);
    assert(!staged ==> strings_view(r@) =~= seq!["diff"@]);
    r
}

/// One entry of the branch listing.
#[derive(Debug)]
pub struct GitBranch {
    pub name: String,
    pub is_current: bool,
    pub is_remote: bool,
}

/// The mathematical content of a `GitBranch`.
pub ghost struct BranchModel {
    pub name: Seq<char>,
    pub is_current: bool,
    pub is_remote: bool,
}

impl View for GitBranch {
    type V = BranchModel;

    open spec fn view(&self) -> BranchModel {
        BranchModel { name: self.name@, is_current: self.is_current, is_remote: self.is_remote }
    }
}

pub open spec fn branches_view(v: Seq<GitBranch>) -> Seq<BranchModel> {
    v.map_values(|b: GitBranch| b@)
}

pub open spec fn current_marker() -> Seq<char> {
    "* "@
}

pub open spec fn remote_prefix() -> Seq<char> {
    "remotes/"@
}

pub open spec fn alias_marker() -> Seq<char> {
    "->"@
}

/// The name a listing line shows once the current marker is stripped and the
/// rest trimmed (before the remote prefix is removed).
pub open spec fn listed_name(line: Seq<char>) -> Seq<char> {
    trim(strip_all(line, current_marker()))
}

/// The record that one listing line describes, before alias filtering.
pub open spec fn branch_entry(line: Seq<char>) -> BranchModel {
    BranchModel {
        name: strip_all(listed_name(line), remote_prefix()),
        is_current: starts_with(line, current_marker()),
        is_remote: starts_with(listed_name(line), remote_prefix()),
    }
}

/// A record names a symbolic alias (`HEAD -> other`).
pub open spec fn is_alias(b: BranchModel) -> bool {
    contains(b.name, alias_marker())
}

/// The records of a listing, in order, without alias entries.
pub open spec fn branches_of_lines(lines: Seq<Seq<char>>) -> Seq<BranchModel>
    decreases lines.len(),
{
    if lines.len() == 0 {
        Seq::empty()
    } else {
        let prev = branches_of_lines(lines.drop_last());
        let b = branch_entry(lines.last());
        if is_alias(b) {
            prev
        } else {
            prev.push(b)
        }
    }
}

fn branch_of_line(line: &Vec<char>) -> (r: GitBranch)
    ensures
        r@ == branch_entry(line@),
{
    let star = chars_of("* ");
    let remotes = chars_of("remotes/");
    let is_current = has_prefix(line, &star);
    let listed = trimmed(&strip_repeated(line, &star));
    let is_remote = has_prefix(&listed, &remotes);
    let name = strip_repeated(&listed, &remotes);
    GitBranch { name: string_of(name.as_slice()), is_current, is_remote }
}

/// Parses a branch listing into records; a leading `* ` marks the current
/// branch, a `remotes/` prefix a remote one, and alias lines are left out.
pub fn parse_branch_list(output: &str) -> (r: Vec<GitBranch>)
    ensures
        branches_view(r@) == branches_of_lines(lines_of(output@)),
{
    let chars = chars_of(output);
    let lines = split_lines(&chars);
    let ghost ls = seqs_of(lines@);
    let arrow = chars_of("->");
    let mut out: Vec<GitBranch> = Vec::new();
    assert(ls.take(0) =~= Seq::<Seq<char>>::empty());
    assert(branches_view(out@) =~= Seq::empty());
    for i in 0..lines.len()
        invariant
            ls == seqs_of(lines@),
            ls == lines_of(chars@),
            arrow@ == alias_marker(),
            branches_view(out@) =~= branches_of_lines(ls.take(i as int)),
    {
        let b = branch_of_line(&lines[i]);
        assert(ls.take(i + 1).drop_last() =~= ls.take(i as int));
        let name = chars_of(b.name.as_str());
        if !has_infix(&name, &arrow) {
            let ghost before = out@;
            let ghost bv = b@;
            out.push(b);
            assert(branches_view(out@) =~= branches_view(before).push(bv));
        }
    }
    assert(ls.take(lines@.len() as int) =~= ls);
    out
}


/// Every character maps to exactly one kind: the six letters `M A D R C T`
/// to their own kinds, and every other character to `Unknown`.
pub proof fn lemma_normalize_total(c: char)
    ensures
        c == 'M' ==> kind_of(c) == ChangeKind::Modified,
        c == 'A' ==> kind_of(c) == ChangeKind::Added,
        c == 'D' ==> kind_of(c) == ChangeKind::Deleted,
        c == 'R' ==> kind_of(c) == ChangeKind::Renamed,
        c == 'C' ==> kind_of(c) == ChangeKind::Copied,
        c == 'T' ==> kind_of(c) == ChangeKind::TypeChanged,
        (kind_of(c) == ChangeKind::Unknown) <==> (c != 'M' && c != 'A' && c != 'D' && c != 'R'
            && c != 'C' && c != 'T'),
{
}

/// A status code character of the protocol: a change letter or `.`.
pub open spec fn is_status_code(c: char) -> bool {
    c == 'M' || c == 'A' || c == 'D' || c == 'R' || c == 'C' || c == 'T' || c == '.'
}

/// A change record line `1 XY ...` or `2 XY ...` with at least nine words adds
/// at most one entry per side: an index entry for `X` and a worktree entry for
/// `Y`, each with the kind of its code and the line's last word as path, and
/// none for a `.`; the other fields stay as they were.
pub proof fn lemma_change_line_placement(lines: Seq<Seq<char>>, line: Seq<char>, x: char, y: char)
    requires
        starts_with(line, ordinary_marker()) || starts_with(line, rename_marker()),
        words_of(line).len() >= 9,
        words_of(line)[1] == seq![x, y],
        is_status_code(x),
        is_status_code(y),
    ensures
        ({
            let before = status_of_lines(lines);
            let after = status_of_lines(lines.push(line));
            let path = words_of(line).last();
            &&& after.staged.len() == before.staged.len() + if x == '.' { 0int } else { 1int }
            &&& after.unstaged.len() == before.unstaged.len() + if y == '.' { 0int } else { 1int }
            &&& after.staged.take(before.staged.len() as int) == before.staged
            &&& after.unstaged.take(before.unstaged.len() as int) == before.unstaged
            &&& x != '.' ==> after.staged.last() == (path, kind_label(kind_of(x)))
            &&& y != '.' ==> after.unstaged.last() == (path, kind_label(kind_of(y)))
            &&& after.branch == before.branch
            &&& after.ahead == before.ahead
            &&& after.behind == before.behind
            &&& after.untracked == before.untracked
        }),
{
    reveal_strlit("1 ");
    reveal_strlit("2 ");
    reveal_strlit("# branch.head ");
    reveal_strlit("# branch.ab ");
    assert(lines.push(line).drop_last() =~= lines);
    assert(line[0] == '1' || line[0] == '2') by {
        if starts_with(line, ordinary_marker()) {
            assert(line.take(2)[0] == line[0]);
        } else {
            assert(line.take(2)[0] == line[0]);
        }
    }
    assert(!starts_with(line, head_marker())) by {
        if starts_with(line, head_marker()) {
            assert(line.take(14)[0] == line[0]);
        }
    }
    assert(!starts_with(line, ab_marker())) by {
        if starts_with(line, ab_marker()) {
            assert(line.take(12)[0] == line[0]);
        }
    }
    let before = status_of_lines(lines);
    let after = status_of_lines(lines.push(line));
    assert(before.staged.push((words_of(line).last(), kind_label(kind_of(x)))).take(
        before.staged.len() as int,
    ) =~= before.staged);
    assert(before.unstaged.push((words_of(line).last(), kind_label(kind_of(y)))).take(
        before.unstaged.len() as int,
    ) =~= before.unstaged);
    assert(before.staged.take(before.staged.len() as int) =~= before.staged);
    assert(before.unstaged.take(before.unstaged.len() as int) =~= before.unstaged);
}

/// A log dump of `5 * n + k` lines with `k < 5` gives exactly `n` records,
/// the `i`-th made of lines `5 * i` to `5 * i + 4` in order; the incomplete
/// trailing group is dropped.
pub proof fn lemma_log_grouping(lines: Seq<Seq<char>>, n: nat, k: nat)
    requires
        lines.len() == 5 * n + k,
        k < 5,
    ensures
        log_commits(lines).len() == n,
        forall|i: int|
            0 <= i < n ==> (#[trigger] log_commits(lines)[i]).hash == lines[5 * i]
                && log_commits(lines)[i].short_hash == lines[5 * i + 1]
                && log_commits(lines)[i].message == lines[5 * i + 2]
                && log_commits(lines)[i].author == lines[5 * i + 3]
                && log_commits(lines)[i].date == lines[5 * i + 4],
{
    assert((5 * n + k) / 5 == n) by (nonlinear_arith)
        requires
            k < 5,
    ;
}

/// No record of a branch listing names an alias: every record whose name
/// contains `->` is left out, and a line giving such a record adds nothing.
pub proof fn lemma_branch_aliases_excluded(lines: Seq<Seq<char>>, line: Seq<char>)
    ensures
        forall|i: int|
            0 <= i < branches_of_lines(lines).len() ==> !contains(
                (#[trigger] branches_of_lines(lines)[i]).name,
                alias_marker(),
            ),
        contains(branch_entry(line).name, alias_marker()) ==> branches_of_lines(lines.push(line))
            == branches_of_lines(lines),
    decreases lines.len(),
{
    assert(lines.push(line).drop_last() =~= lines);
    if lines.len() > 0 {
        lemma_branch_aliases_excluded(lines.drop_last(), lines.last());
        let prev = branches_of_lines(lines.drop_last());
        let all = branches_of_lines(lines);
        assert forall|i: int| 0 <= i < all.len() implies !contains(
            (#[trigger] all[i]).name,
            alias_marker(),
        ) by {
            if i < prev.len() {
                assert(all[i] == prev[i]);
            }
        }
    }
}

} // verus!

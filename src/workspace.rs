//! Workspaces found on disk: their record, the order they are listed in, and
//! the commands that open one in a terminal or an editor.

use vstd::prelude::*;
use crate::ai_cli::{strip_double_quotes, without_double_quotes};
use crate::text::{chars_of, string_of, trim, trimmed};

verus! {

/// A workspace directory and what was found in it.
#[derive(Debug)]
pub struct WorkspaceInfo {
    pub name: String,
    pub path: String,
    pub has_git: bool,
    pub has_aidf: bool,
    pub git_branch: Option<String>,
    pub last_modified: Option<u64>,
}

/// `a` is listed strictly before `b`: more recently modified first, and an
/// unknown time after every known one.
pub open spec fn more_recent(a: Option<u64>, b: Option<u64>) -> bool {
    match (a, b) {
        (Some(x), Some(y)) => x > y,
        (Some(_), None) => true,
        _ => false,
    }
}

/// Where a workspace with time `t` goes in an already ordered list: before
/// the first entry it is strictly more recent than, so that equal times keep
/// their order.
pub open spec fn recent_slot(s: Seq<WorkspaceInfo>, t: Option<u64>) -> nat
    decreases s.len(),
{
    if s.len() == 0 {
        0
    } else if more_recent(t, s[0].last_modified) {
        0
    } else {
        1 + recent_slot(s.drop_first(), t)
    }
}

/// `s` ordered most recent first, keeping the given order among equal times
/// (the result of a stable sort).
pub open spec fn by_recent(s: Seq<WorkspaceInfo>) -> Seq<WorkspaceInfo>
    decreases s.len(),
{
    if s.len() == 0 {
        Seq::empty()
    } else {
        let sorted = by_recent(s.drop_last());
        sorted.insert(recent_slot(sorted, s.last().last_modified) as int, s.last())
    }
}

proof fn lemma_recent_slot_bound(s: Seq<WorkspaceInfo>, t: Option<u64>)
    ensures
        recent_slot(s, t) <= s.len(),
    decreases s.len(),
{
    if s.len() > 0 {
        lemma_recent_slot_bound(s.drop_first(), t);
    }
}

proof fn lemma_by_recent_len(s: Seq<WorkspaceInfo>)
    ensures
        by_recent(s).len() == s.len(),
    decreases s.len(),
{
    if s.len() > 0 {
        lemma_by_recent_len(s.drop_last());
        lemma_recent_slot_bound(by_recent(s.drop_last()), s.last().last_modified);
    }
}

proof fn lemma_recent_slot_props(s: Seq<WorkspaceInfo>, t: Option<u64>)
    ensures
        recent_slot(s, t) <= s.len(),
        forall|k: int|
            0 <= k < recent_slot(s, t) ==> !more_recent(t, (#[trigger] s[k]).last_modified),
        recent_slot(s, t) < s.len() ==> more_recent(t, s[recent_slot(s, t) as int].last_modified),
    decreases s.len(),
{
    if s.len() > 0 && !more_recent(t, s[0].last_modified) {
        lemma_recent_slot_props(s.drop_first(), t);
        assert forall|k: int| 0 <= k < recent_slot(s, t) implies !more_recent(
            t,
            (#[trigger] s[k]).last_modified,
        ) by {
            if k > 0 {
                assert(s[k] == s.drop_first()[k - 1]);
            }
        }
    }
}

/// No workspace is listed after one that is less recent.
pub open spec fn recent_first(s: Seq<WorkspaceInfo>) -> bool {
    forall|i: int, j: int|
        0 <= i < j < s.len() ==> !more_recent(
            (#[trigger] s[j]).last_modified,
            (#[trigger] s[i]).last_modified,
        )
}

/// Ordering keeps every workspace, most recent first.
pub proof fn lemma_by_recent_sorted(s: Seq<WorkspaceInfo>)
    ensures
        by_recent(s).len() == s.len(),
        recent_first(by_recent(s)),
    decreases s.len(),
{
    lemma_by_recent_len(s);
    if s.len() > 0 {
        let sorted = by_recent(s.drop_last());
        let e = s.last();
        lemma_by_recent_sorted(s.drop_last());
        lemma_recent_slot_props(sorted, e.last_modified);
        let slot = recent_slot(sorted, e.last_modified) as int;
        let r = sorted.insert(slot, e);
        assert forall|i: int, j: int| 0 <= i < j < r.len() implies !more_recent(
            (#[trigger] r[j]).last_modified,
            (#[trigger] r[i]).last_modified,
        ) by {
            if j < slot {
                assert(r[i] == sorted[i] && r[j] == sorted[j]);
            } else if j == slot {
                assert(r[i] == sorted[i]);
            } else if i < slot {
                assert(r[i] == sorted[i] && r[j] == sorted[j - 1]);
            } else if i == slot {
                assert(r[j] == sorted[j - 1]);
                assert(more_recent(e.last_modified, sorted[slot].last_modified));
                if j - 1 > slot {
                    assert(!more_recent(sorted[j - 1].last_modified, sorted[slot].last_modified));
                }
            } else {
                assert(r[i] == sorted[i - 1] && r[j] == sorted[j - 1]);
            }
        }
    }
}

fn is_more_recent(a: Option<u64>, b: Option<u64>) -> (r: bool)
    ensures
        r == more_recent(a, b),
{
    match (a, b) {
        (Some(x), Some(y)) => x > y,
        (Some(_), None) => true,
        _ => false,
    }
}

/// Orders workspaces most recently modified first; equal times keep their
/// order and unknown times come last.
pub fn sort_by_recent(list: Vec<WorkspaceInfo>) -> (r: Vec<WorkspaceInfo>)
    ensures
        r@ == by_recent(list@),
        recent_first(r@),
{
    proof {
        lemma_by_recent_sorted(list@);
    }
    let ghost orig = list@;
    let mut rest = list;
    let mut out: Vec<WorkspaceInfo> = Vec::new();
    let n = rest.len();
    assert(orig.take(0) =~= Seq::<WorkspaceInfo>::empty());
    assert(rest@.skip(0) =~= rest@);
    for k in 0..n
        invariant
            n == orig.len(),
            rest@ == orig.skip(k as int),
            out@ == by_recent(orig.take(k as int)),
    {
        proof {
            lemma_by_recent_len(orig.take(k as int));
        }
        let w = rest.remove(0);
        assert(rest@ =~= orig.skip(k + 1));
        let t = w.last_modified;
        let mut j: usize = 0;
        assert(out@.skip(0) =~= out@);
        while j < out.len() && !is_more_recent(t, out[j].last_modified)
            invariant
                j <= out@.len(),
                recent_slot(out@, t) == j + recent_slot(out@.skip(j as int), t),
            decreases out@.len() - j,
        {
            assert(out@.skip(j as int).drop_first() =~= out@.skip(j + 1));
            j = j + 1;
        }
        assert(orig.take(k + 1).drop_last() =~= orig.take(k as int));
        assert(orig.take(k + 1).last() == w);
        out.insert(j, w);
    }
    assert(orig.take(n as int) =~= orig);
    out
}

/// The branch a workspace is on, from the output of the query for it: its
/// output trimmed when the query succeeded, none otherwise.
pub fn branch_from_output(success: bool, stdout: &str) -> (r: Option<String>)
    ensures
        success ==> r is Some && r->0@ == trim(stdout@),
        !success ==> r is None,
{
    if success {
        Some(string_of(trimmed(&chars_of(stdout)).as_slice()))
    } else {
        None
    }
}

/// The name shown for a workspace: its directory's name, or the whole path
/// where the path has none.
pub fn workspace_name(dir_name: Option<String>, path: &str) -> (r: String)
    ensures
        r@ == match dir_name {
            Some(d) => d@,
            None => path@,
        },
{
    match dir_name {
        Some(d) => d,
        None => String::from_str(path),
    }
}

/// The terminal programs tried on Linux, in order.
pub fn linux_terminals() -> (r: Vec<String>)
    ensures
        r@.len() == 4,
        r@[0]@ == "x-terminal-emulator"@,
        r@[1]@ == "gnome-terminal"@,
        r@[2]@ == "konsole"@,
        r@[3]@ == "xterm"@,
{
    let mut r: Vec<String> = Vec::new();
    r.push(String::from_str("x-terminal-emulator"));
    r.push(String::from_str("gnome-terminal"));
    r.push(String::from_str("konsole"));
    r.push(String::from_str("xterm"));
    r
}

/// The argument that starts a Linux terminal in `path`.
pub fn working_directory_arg(path: &str) -> (r: String)
    ensures
        r@ == "--working-directory="@ + path@,
{
    let mut r = String::from_str("--working-directory=");
    r.append(path);
    r
}

/// The command a Windows console runs to enter `path` (double quotes removed).
pub fn windows_enter_command(path: &str) -> (r: String)
    ensures
        r@ == "cd /d \""@ + without_double_quotes(path@) + "\""@,
{
    let mut r = String::from_str("cd /d \"");
    r.append(strip_double_quotes(path).as_str());
    r.append("\"");
    r
}

/// The editor to open a path with: the one asked for, else `code`.
pub fn editor_command(editor: Option<String>) -> (r: String)
    ensures
        r@ == match editor {
            Some(e) => e@,
            None => "code"@,
        },
{
    match editor {
        Some(e) => e,
        None => String::from_str("code"),
    }
}

} // verus!

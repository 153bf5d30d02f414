//! Files shown in the browser: their records, the order a directory listing
//! is shown in, the read size cap, and the language a file is shown as.

use vstd::prelude::*;
use std::path::PathBuf;
use crate::text::{chars_of, same_text};

verus! {

#[verifier::external_type_specification]
#[verifier::external_body]
pub struct ExPathBuf(PathBuf);

/// One entry of a directory listing.
#[derive(Debug)]
pub struct FileEntry {
    pub name: String,
    pub path: String,
    pub is_dir: bool,
    pub is_hidden: bool,
    pub size: u64,
    pub modified: Option<u64>,
}

/// The text of a file as shown, with its language and whether it was cut.
#[derive(Debug)]
pub struct FileContent {
    pub content: String,
    pub language: String,
    pub truncated: bool,
}

/// A name that begins with a dot is hidden.
pub open spec fn hidden_name(name: Seq<char>) -> bool {
    name.len() > 0 && name[0] == '.'
}

/// Builds a listing entry; whether it is hidden follows from its name.
pub fn file_entry(
    name: String,
    path: String,
    is_dir: bool,
    size: u64,
    modified: Option<u64>,
) -> (r: FileEntry)
    ensures
        r.name == name,
        r.path == path,
        r.is_dir == is_dir,
        r.size == size,
        r.modified == modified,
        r.is_hidden == hidden_name(name@),
{
    let c = chars_of(name.as_str());
    let is_hidden = c.len() > 0 && c[0] == '.';
    FileEntry { name, path, is_dir, is_hidden, size, modified }
}

/// The most bytes of a file that are shown.
pub const MAX_READ_BYTES: u64 = 1048576;

/// A file of `len` bytes is shown cut to its first `MAX_READ_BYTES` bytes.
pub fn exceeds_read_limit(len: u64) -> (r: bool)
    ensures
        r == (len > MAX_READ_BYTES),
{
    len > MAX_READ_BYTES
}

/// What `str::to_lowercase` gives for a text.
pub uninterp spec fn lower_of(s: Seq<char>) -> Seq<char>;

/// Relies on `str::to_lowercase`: the lowercase form of a text, which depends
/// on its characters alone.
#[verifier::external_body]
fn lowercase(s: &str) -> (r: String)
    ensures
        r@ == lower_of(s@),
{
    s.to_lowercase()
}

/// `a` comes strictly before `b` in the order of `String`'s `Ord`, which
/// compares UTF-8 bytes and so compares characters by code point.
pub open spec fn text_less(a: Seq<char>, b: Seq<char>) -> bool
    decreases a.len(),
{
    if a.len() == 0 {
        b.len() > 0
    } else if b.len() == 0 {
        false
    } else if a[0] != b[0] {
        (a[0] as u32) < (b[0] as u32)
    } else {
        text_less(a.drop_first(), b.drop_first())
    }
}

fn is_text_less(a: &Vec<char>, b: &Vec<char>) -> (r: bool)
    ensures
        r == text_less(a@, b@),
{
    let mut i: usize = 0;
    assert(a@.skip(0) =~= a@ && b@.skip(0) =~= b@);
    while i < a.len() && i < b.len() && a[i] == b[i]
        invariant
            i <= a@.len(),
            i <= b@.len(),
            text_less(a@, b@) == text_less(a@.skip(i as int), b@.skip(i as int)),
        decreases a@.len() - i,
    {
        assert(a@.skip(i as int).drop_first() =~= a@.skip(i + 1));
        assert(b@.skip(i as int).drop_first() =~= b@.skip(i + 1));
        i = i + 1;
    }
    if i == a.len() {
        i < b.len()
    } else if i == b.len() {
        false
    } else {
        (a[i] as u32) < (b[i] as u32)
    }
}

/// `a` is listed strictly before `b`: directories before files, then by the
/// lowercase form of the name.
pub open spec fn entry_before(a: FileEntry, b: FileEntry) -> bool {
    (a.is_dir && !b.is_dir) || (a.is_dir == b.is_dir && text_less(
        lower_of(a.name@),
        lower_of(b.name@),
    ))
}

/// Where entry `e` goes in an already ordered listing: before the first
/// entry it is strictly before, so that equal keys keep their order.
pub open spec fn entry_slot(s: Seq<FileEntry>, e: FileEntry) -> nat
    decreases s.len(),
{
    if s.len() == 0 {
        0
    } else if entry_before(e, s[0]) {
        0
    } else {
        1 + entry_slot(s.drop_first(), e)
    }
}

/// `s` in listing order, keeping the given order among equal keys (the
/// result of a stable sort).
pub open spec fn listing_order(s: Seq<FileEntry>) -> Seq<FileEntry>
    decreases s.len(),
{
    if s.len() == 0 {
        Seq::empty()
    } else {
        let sorted = listing_order(s.drop_last());
        sorted.insert(entry_slot(sorted, s.last()) as int, s.last())
    }
}

proof fn lemma_entry_slot_bound(s: Seq<FileEntry>, e: FileEntry)
    ensures
        entry_slot(s, e) <= s.len(),
    decreases s.len(),
{
    if s.len() > 0 {
        lemma_entry_slot_bound(s.drop_first(), e);
    }
}

proof fn lemma_listing_order_len(s: Seq<FileEntry>)
    ensures
        listing_order(s).len() == s.len(),
    decreases s.len(),
{
    if s.len() > 0 {
        lemma_listing_order_len(s.drop_last());
        lemma_entry_slot_bound(listing_order(s.drop_last()), s.last());
    }
}

fn is_entry_before(e: &FileEntry, key: &Vec<char>, other: &FileEntry) -> (r: bool)
    requires
        key@ == lower_of(e.name@),
    ensures
        r == entry_before(*e, *other),
{
    (e.is_dir && !other.is_dir) || (e.is_dir == other.is_dir && is_text_less(
        key,
        &chars_of(lowercase(other.name.as_str()).as_str()),
    ))
}

proof fn lemma_entry_slot_props(s: Seq<FileEntry>, e: FileEntry)
    ensures
        entry_slot(s, e) <= s.len(),
        forall|k: int| 0 <= k < entry_slot(s, e) ==> !entry_before(e, #[trigger] s[k]),
        entry_slot(s, e) < s.len() ==> entry_before(e, s[entry_slot(s, e) as int]),
    decreases s.len(),
{
    if s.len() > 0 && !entry_before(e, s[0]) {
        lemma_entry_slot_props(s.drop_first(), e);
        assert forall|k: int| 0 <= k < entry_slot(s, e) implies !entry_before(e, #[trigger] s[k]) by {
            if k > 0 {
                assert(s[k] == s.drop_first()[k - 1]);
            }
        }
    }
}

/// No file comes before a directory.
pub open spec fn dirs_first(s: Seq<FileEntry>) -> bool {
    forall|i: int, j: int| 0 <= i < j < s.len() && (#[trigger] s[j]).is_dir ==> (#[trigger] s[i]).is_dir
}

/// A listing keeps every entry, and shows all directories before all files.
pub proof fn lemma_listing_dirs_first(s: Seq<FileEntry>)
    ensures
        listing_order(s).len() == s.len(),
        dirs_first(listing_order(s)),
    decreases s.len(),
{
    lemma_listing_order_len(s);
    if s.len() > 0 {
        let sorted = listing_order(s.drop_last());
        let e = s.last();
        lemma_listing_dirs_first(s.drop_last());
        lemma_entry_slot_props(sorted, e);
        let slot = entry_slot(sorted, e) as int;
        let r = sorted.insert(slot, e);
        assert forall|i: int, j: int| 0 <= i < j < r.len() && (#[trigger] r[j]).is_dir implies (
        #[trigger] r[i]).is_dir by {
            if j < slot {
                assert(r[i] == sorted[i] && r[j] == sorted[j]);
            } else if j == slot {
                assert(r[i] == sorted[i]);
                assert(!entry_before(e, sorted[i]));
            } else if i < slot {
                assert(r[i] == sorted[i] && r[j] == sorted[j - 1]);
            } else if i == slot {
                assert(r[j] == sorted[j - 1]);
                assert(entry_before(e, sorted[slot]));
                if !e.is_dir {
                    assert(sorted[j - 1].is_dir ==> sorted[slot].is_dir);
                }
            } else {
                assert(r[i] == sorted[i - 1] && r[j] == sorted[j - 1]);
            }
        }
    }
}

/// Orders a directory listing: directories first, then by lowercase name;
/// entries with equal keys keep their order.
pub fn sort_entries(list: Vec<FileEntry>) -> (r: Vec<FileEntry>)
    ensures
        r@ == listing_order(list@),
        dirs_first(r@),
{
    proof {
        lemma_listing_dirs_first(list@);
    }
    let ghost orig = list@;
    let mut rest = list;
    let mut out: Vec<FileEntry> = Vec::new();
    let n = rest.len();
    assert(orig.take(0) =~= Seq::<FileEntry>::empty());
    assert(rest@.skip(0) =~= rest@);
    for k in 0..n
        invariant
            n == orig.len(),
            rest@ == orig.skip(k as int),
            out@ == listing_order(orig.take(k as int)),
    {
        proof {
            lemma_listing_order_len(orig.take(k as int));
        }
        let e = rest.remove(0);
        assert(rest@ =~= orig.skip(k + 1));
        let key = chars_of(lowercase(e.name.as_str()).as_str());
        let mut j: usize = 0;
        assert(out@.skip(0) =~= out@);
        while j < out.len() && !is_entry_before(&e, &key, &out[j])
            invariant
                j <= out@.len(),
                key@ == lower_of(e.name@),
                entry_slot(out@, e) == j + entry_slot(out@.skip(j as int), e),
            decreases out@.len() - j,
        {
            assert(out@.skip(j as int).drop_first() =~= out@.skip(j + 1));
            j = j + 1;
        }
        assert(orig.take(k + 1).drop_last() =~= orig.take(k as int));
        assert(orig.take(k + 1).last() == e);
        out.insert(j, e);
    }
    assert(orig.take(n as int) =~= orig);
    out
}

/// The language a file extension is shown as.
pub open spec fn language_of(e: Seq<char>) -> Seq<char> {
    if e == "rs"@ {
        "rust"@
    } else if e == "ts"@ || e == "tsx"@ {
        "typescript"@
    } else if e == "js"@ || e == "jsx"@ || e == "mjs"@ || e == "cjs"@ {
        "javascript"@
    } else if e == "py"@ {
        "python"@
    } else if e == "rb"@ {
        "ruby"@
    } else if e == "go"@ {
        "go"@
    } else if e == "java"@ {
        "java"@
    } else if e == "c"@ || e == "h"@ {
        "c"@
    } else if e == "cpp"@ || e == "cc"@ || e == "cxx"@ || e == "hpp"@ {
        "cpp"@
    } else if e == "cs"@ {
        "csharp"@
    } else if e == "swift"@ {
        "swift"@
    } else if e == "kt"@ || e == "kts"@ {
        "kotlin"@
    } else if e == "md"@ || e == "mdx"@ {
        "markdown"@
    } else if e == "json"@ {
        "json"@
    } else if e == "yaml"@ || e == "yml"@ {
        "yaml"@
    } else if e == "toml"@ {
        "toml"@
    } else if e == "html"@ || e == "htm"@ {
        "html"@
    } else if e == "css"@ {
        "css"@
    } else if e == "scss"@ || e == "sass"@ {
        "scss"@
    } else if e == "sql"@ {
        "sql"@
    } else if e == "sh"@ || e == "bash"@ || e == "zsh"@ {
        "shell"@
    } else if e == "dockerfile"@ || e == "Dockerfile"@ {
        "dockerfile"@
    } else if e == "xml"@ {
        "xml"@
    } else if e == "svg"@ {
        "svg"@
    } else {
        "plaintext"@
    }
}

/// The language a file with extension `ext` is shown as.
pub fn language_for_extension(ext: &str) -> (r: String)
    ensures
        r@ == language_of(ext@),
{
    let lang = if same_text(ext, "rs") {
        "rust"
    } else if same_text(ext, "ts") || same_text(ext, "tsx") {
        "typescript"
    } else if same_text(ext, "js") || same_text(ext, "jsx") || same_text(ext, "mjs") || same_text(
        ext,
        "cjs",
    ) {
        "javascript"
    } else if same_text(ext, "py") {
        "python"
    } else if same_text(ext, "rb") {
        "ruby"
    } else if same_text(ext, "go") {
        "go"
    } else if same_text(ext, "java") {
        "java"
    } else if same_text(ext, "c") || same_text(ext, "h") {
        "c"
    } else if same_text(ext, "cpp") || same_text(ext, "cc") || same_text(ext, "cxx") || same_text(
        ext,
        "hpp",
    ) {
        "cpp"
    } else if same_text(ext, "cs") {
        "csharp"
    } else if same_text(ext, "swift") {
        "swift"
    } else if same_text(ext, "kt") || same_text(ext, "kts") {
        "kotlin"
    } else if same_text(ext, "md") || same_text(ext, "mdx") {
        "markdown"
    } else if same_text(ext, "json") {
        "json"
    } else if same_text(ext, "yaml") || same_text(ext, "yml") {
        "yaml"
    } else if same_text(ext, "toml") {
        "toml"
    } else if same_text(ext, "html") || same_text(ext, "htm") {
        "html"
    } else if same_text(ext, "css") {
        "css"
    } else if same_text(ext, "scss") || same_text(ext, "sass") {
        "scss"
    } else if same_text(ext, "sql") {
        "sql"
    } else if same_text(ext, "sh") || same_text(ext, "bash") || same_text(ext, "zsh") {
        "shell"
    } else if same_text(ext, "dockerfile") || same_text(ext, "Dockerfile") {
        "dockerfile"
    } else if same_text(ext, "xml") {
        "xml"
    } else if same_text(ext, "svg") {
        "svg"
    } else {
        "plaintext"
    };
    String::from_str(lang)
}

/// Relies on `Path::extension` and `OsStr::to_str`: the extension of the
/// path's file name, or empty text where it has none or it is not Unicode.
#[verifier::external_body]
fn extension_text(path: &PathBuf) -> (r: String) {
    path.extension().and_then(|e| e.to_str()).unwrap_or("").to_string()
}

/// The language a file is shown as, from its path's extension.
pub fn detect_language(path: &PathBuf) -> (r: String)
    ensures
        exists|e: Seq<char>| r@ == language_of(e),
{
    let ext = extension_text(path);
    language_for_extension(ext.as_str())
}

} // verus!

//! Walking a local source: the listing of its files and the text search in
//! them. The caller reads the disk; these functions decide, entry by entry,
//! what is listed, skipped, descended into or read, and what a file yields.
use vstd::prelude::*;

use crate::chars::{chars_of, string_of};
use crate::git::{chars_contains, seq_contains};
use crate::order::{chars_less, seq_less};
use crate::paths::{
    ascii_lower_seq, is_generated_name, relative_path_display, resource_directory_is_generated,
    resource_path_looks_secret, spec_path_looks_secret, spec_relative_path_display, views,
};
use crate::stable::{as_ints, positions_below, sort_positions, stable_sort};
use crate::text::{compact_search_text, spec_compact_search_text};
use crate::todos::{lines_of, spec_lines};
use crate::unicode::{lowercase, to_lowercase};

verus! {

/// What a directory entry is, as its file type says (links not followed).
#[derive(PartialEq, Eq, Structural, Clone, Copy, Debug)]
pub enum EntryKind {
    Symlink,
    Directory,
    File,
    Other,
}

/// A directory entry as the walk reads it: its file name, its path relative
/// to the source's root, its type (`None` where it could not be read) and
/// its length (`None` where its metadata could not be read).
pub struct ChildEntry {
    pub name: String,
    pub relative: String,
    pub kind: Option<EntryKind>,
    pub size: Option<u64>,
}

/// The order in which a directory's entries are visited: by lowercase name,
/// entries of equal names in the order read.
pub open spec fn name_before(names: Seq<Seq<char>>) -> spec_fn(int, int) -> bool {
    |a: int, b: int| seq_less(lowercase(names[a]), lowercase(names[b]))
}

/// The positions of `names` in visiting order.
pub fn child_order(names: &Vec<String>) -> (r: Vec<usize>)
    ensures
        as_ints(r@) == stable_sort(name_before(names@.map_values(|s: String| s@)), Seq::new(names@.len(), |i: int| i)),
{
    let ghost ns = names@.map_values(|s: String| s@);
    let n = names.len();
    let mut keys: Vec<Vec<char>> = Vec::new();
    let mut i: usize = 0;
    while i < n
        invariant
            i <= n,
            n == names@.len(),
            ns == names@.map_values(|s: String| s@),
            keys@.len() == i,
            forall|k: int| 0 <= k < i ==> (#[trigger] keys@[k])@ == lowercase(ns[k]),
        decreases n - i,
    {
        let lower = to_lowercase(names[i].as_str());
        keys.push(chars_of(lower.as_str()));
        i = i + 1;
    }
    let all = positions_below(n);
    let order = sort_positions(
        &all,
        Ghost(name_before(ns)),
        n,
        (|a: usize, b: usize| -> (r: bool)
            requires
                a < n && b < n,
                n == keys@.len(),
                n == ns.len(),
                forall|k: int| 0 <= k < n ==> (#[trigger] keys@[k])@ == lowercase(ns[k]),
            ensures
                r == name_before(ns)(a as int, b as int),
            { chars_less(&keys[a], &keys[b]) }),
    );
    assert(as_ints(all@) =~= Seq::new(names@.len(), |i: int| i));
    order
}

/// A listed entry: its displayed path, `directory` or `file`, and the length
/// of a regular file.
pub struct ResourceFileEntry {
    pub path: String,
    pub kind: &'static str,
    pub size: Option<u64>,
}

/// The state of a listing walk.
pub struct ResourceWalkState {
    pub limit: usize,
    pub entries: Vec<ResourceFileEntry>,
    pub truncated: bool,
    pub skipped_generated_directories: usize,
    pub skipped_sensitive_entries: usize,
}

/// What the walk does after an entry: stop listing, go on to the next entry,
/// list the directory's own entries first, or fail on an entry it could not
/// read.
#[derive(PartialEq, Eq, Structural, Clone, Copy, Debug)]
pub enum WalkStep {
    Stop,
    Next,
    Descend,
    Fail,
}

pub open spec fn entry_view(e: ResourceFileEntry) -> (Seq<char>, Seq<char>, Option<u64>) {
    (e.path@, e.kind@, e.size)
}

pub open spec fn is_generated_dir(c: ChildEntry) -> bool {
    c.kind == Some(EntryKind::Directory) && is_generated_name(ascii_lower_seq(c.name@))
}

/// The entry that the listing records for `c`.
pub open spec fn listed_entry(c: ChildEntry) -> (Seq<char>, Seq<char>, Option<u64>) {
    (
        spec_relative_path_display(c.relative@),
        if c.kind == Some(EntryKind::Directory) { "directory"@ } else { "file"@ },
        if c.kind == Some(EntryKind::File) { c.size } else { None },
    )
}

/// One entry of a listing walk at `depth` (the root's entries are at 0) of
/// at most `max_depth` levels: once `limit` entries are listed the walk
/// stops as truncated; links are passed over; secret-looking paths and
/// generated directories are counted and passed over; any other entry is
/// listed, and a directory above the last level is then walked into.
pub fn walk_child(walk: &mut ResourceWalkState, child: &ChildEntry, depth: usize, max_depth: usize) -> (r: WalkStep)
    requires
        old(walk).skipped_generated_directories < usize::MAX,
        old(walk).skipped_sensitive_entries < usize::MAX,
        depth < usize::MAX,
    ensures
        final(walk).limit == old(walk).limit,
        if old(walk).entries@.len() >= old(walk).limit {
            &&& r == WalkStep::Stop
            &&& final(walk).truncated
            &&& final(walk).entries@ == old(walk).entries@
            &&& final(walk).skipped_generated_directories == old(walk).skipped_generated_directories
            &&& final(walk).skipped_sensitive_entries == old(walk).skipped_sensitive_entries
        } else {
            &&& final(walk).truncated == old(walk).truncated
            &&& final(walk).skipped_sensitive_entries == old(walk).skipped_sensitive_entries + if child.kind is Some
                && child.kind != Some(EntryKind::Symlink) && spec_path_looks_secret(child.relative@) {
                1int
            } else {
                0int
            }
            &&& final(walk).skipped_generated_directories == old(walk).skipped_generated_directories + if child.kind is Some
                && !spec_path_looks_secret(child.relative@) && is_generated_dir(*child) {
                1int
            } else {
                0int
            }
            &&& if child.kind is None {
                r == WalkStep::Fail && final(walk).entries@ == old(walk).entries@
            } else if child.kind == Some(EntryKind::Symlink) || spec_path_looks_secret(child.relative@) || is_generated_dir(*child) {
                r == WalkStep::Next && final(walk).entries@ == old(walk).entries@
            } else if child.size is None {
                r == WalkStep::Fail && final(walk).entries@ == old(walk).entries@
            } else {
                &&& final(walk).entries@.map_values(|e: ResourceFileEntry| entry_view(e))
                    == old(walk).entries@.map_values(|e: ResourceFileEntry| entry_view(e)).push(listed_entry(*child))
                &&& r == if child.kind == Some(EntryKind::Directory) && depth + 1 < max_depth {
                    WalkStep::Descend
                } else {
                    WalkStep::Next
                }
            }
        },
{
    if walk.entries.len() >= walk.limit {
        walk.truncated = true;
        return WalkStep::Stop;
    }
    let kind = match child.kind {
        Some(k) => k,
        None => {
            return WalkStep::Fail;
        },
    };
    if kind == EntryKind::Symlink {
        return WalkStep::Next;
    }
    if resource_path_looks_secret(child.relative.as_str()) {
        walk.skipped_sensitive_entries = walk.skipped_sensitive_entries + 1;
        return WalkStep::Next;
    }
    if kind == EntryKind::Directory && resource_directory_is_generated(child.name.as_str()) {
        walk.skipped_generated_directories = walk.skipped_generated_directories + 1;
        return WalkStep::Next;
    }
    let size = match child.size {
        Some(s) => s,
        None => {
            return WalkStep::Fail;
        },
    };
    let is_dir = kind == EntryKind::Directory;
    let entry = ResourceFileEntry {
        path: relative_path_display(child.relative.as_str()),
        kind: if is_dir { "directory" } else { "file" },
        size: if kind == EntryKind::File { Some(size) } else { None },
    };
    let ghost before = walk.entries@;
    walk.entries.push(entry);
    assert(walk.entries@.map_values(|e: ResourceFileEntry| entry_view(e)) == before.map_values(|e: ResourceFileEntry| entry_view(e)).push(
        listed_entry(*child),
    ));
    if is_dir && depth + 1 < max_depth {
        WalkStep::Descend
    } else {
        WalkStep::Next
    }
}

/// A line of a source file that holds the search text.
pub struct ResourceSearchHit {
    pub path: String,
    pub line: usize,
    pub snippet: String,
}

/// The state of a text search through a local source.
pub struct ResourceSearchState {
    pub query_lower: String,
    pub max_files: usize,
    pub limit: usize,
    pub matches: Vec<ResourceSearchHit>,
    pub files_considered: usize,
    pub text_files_scanned: usize,
    pub files_skipped: usize,
    pub truncated: bool,
    pub stopped: bool,
}

/// What the search does after an entry: stop, go on to the next entry,
/// search the directory first, or read the file and hand its bytes to
/// `search_file`.
#[derive(PartialEq, Eq, Structural, Clone, Copy, Debug)]
pub enum SearchStep {
    Stop,
    Next,
    Descend,
    Read,
}

/// Files longer than this are not searched.
pub open spec fn max_search_file_bytes() -> nat {
    512 * 1024
}

/// How the search treats an entry, from the counters it had: its step, and
/// whether it counts the entry as skipped, as considered, or marks the
/// search truncated or stopped.
pub open spec fn search_decision(s: ResourceSearchState, c: ChildEntry, depth: int, max_depth: int) -> (SearchStep, bool, bool, bool, bool) {
    if s.stopped {
        (SearchStep::Stop, false, false, false, false)
    } else if c.kind is None || c.kind == Some(EntryKind::Symlink) || spec_path_looks_secret(c.relative@) {
        (SearchStep::Next, true, false, false, false)
    } else if c.kind == Some(EntryKind::Directory) {
        if is_generated_name(ascii_lower_seq(c.name@)) {
            (SearchStep::Next, true, false, false, false)
        } else if depth + 1 < max_depth {
            (SearchStep::Descend, false, false, false, false)
        } else {
            (SearchStep::Next, false, false, true, false)
        }
    } else if c.kind != Some(EntryKind::File) {
        (SearchStep::Next, true, false, false, false)
    } else if s.files_considered >= s.max_files {
        (SearchStep::Stop, false, false, true, true)
    } else if c.size is None || c.size->0 > max_search_file_bytes() {
        (SearchStep::Next, true, true, false, false)
    } else {
        (SearchStep::Read, false, true, false, false)
    }
}

/// One entry of a search at `depth` of at most `max_depth` levels: a stopped
/// search stops; unreadable entries, links and secret-looking paths are
/// skipped; generated directories are skipped, others searched above the
/// last level (the search is truncated at it); a file past the first
/// `max_files` stops the search as truncated, and one of unknown length or
/// over 512 KiB is considered and skipped; any other file is considered and
/// read.
pub fn search_child(search: &mut ResourceSearchState, child: &ChildEntry, depth: usize, max_depth: usize) -> (r: SearchStep)
    requires
        old(search).files_skipped < usize::MAX,
        old(search).files_considered < usize::MAX,
        depth < usize::MAX,
    ensures
        ({
            let d = search_decision(*old(search), *child, depth as int, max_depth as int);
            &&& r == d.0
            &&& final(search).files_skipped == old(search).files_skipped + if d.1 { 1int } else { 0int }
            &&& final(search).files_considered == old(search).files_considered + if d.2 { 1int } else { 0int }
            &&& final(search).truncated == (old(search).truncated || d.3)
            &&& final(search).stopped == (old(search).stopped || d.4)
            &&& final(search).matches@ == old(search).matches@
            &&& final(search).text_files_scanned == old(search).text_files_scanned
            &&& final(search).query_lower == old(search).query_lower
            &&& final(search).max_files == old(search).max_files
            &&& final(search).limit == old(search).limit
        }),
        old(search).files_considered <= old(search).max_files ==> final(search).files_considered
            <= final(search).max_files,
{
    if search.stopped {
        return SearchStep::Stop;
    }
    let kind = match child.kind {
        Some(k) => k,
        None => {
            search.files_skipped = search.files_skipped + 1;
            return SearchStep::Next;
        },
    };
    if kind == EntryKind::Symlink || resource_path_looks_secret(child.relative.as_str()) {
        search.files_skipped = search.files_skipped + 1;
        return SearchStep::Next;
    }
    if kind == EntryKind::Directory {
        if resource_directory_is_generated(child.name.as_str()) {
            search.files_skipped = search.files_skipped + 1;
            return SearchStep::Next;
        } else if depth + 1 < max_depth {
            return SearchStep::Descend;
        } else {
            search.truncated = true;
            return SearchStep::Next;
        }
    }
    if kind != EntryKind::File {
        search.files_skipped = search.files_skipped + 1;
        return SearchStep::Next;
    }
    if search.files_considered >= search.max_files {
        search.truncated = true;
        search.stopped = true;
        return SearchStep::Stop;
    }
    search.files_considered = search.files_considered + 1;
    match child.size {
        Some(s) => {
            if s > 512 * 1024 {
                search.files_skipped = search.files_skipped + 1;
                SearchStep::Next
            } else {
                SearchStep::Read
            }
        },
        None => {
            search.files_skipped = search.files_skipped + 1;
            SearchStep::Next
        },
    }
}

/// The text that `String::from_utf8` makes of `bytes`: `None` unless they are
/// valid UTF-8.
#[verifier::external_body]
fn utf8_text(bytes: Vec<u8>) -> (r: Option<String>)
    ensures
        match r {
            Some(s) => vstd::utf8::valid_utf8(bytes@) && s@ == vstd::utf8::decode_utf8(bytes@),
            None => !vstd::utf8::valid_utf8(bytes@),
        },
{
    String::from_utf8(bytes).ok()
}

/// Whether one of the first 8 KiB of `bytes` is zero: the mark of a binary
/// file.
pub open spec fn looks_binary(bytes: Seq<u8>) -> bool {
    exists|i: int| 0 <= i < bytes.len() && i < 8192 && bytes[i] == 0
}

fn has_zero_prefix(bytes: &Vec<u8>) -> (r: bool)
    ensures
        r == looks_binary(bytes@),
{
    let mut i: usize = 0;
    while i < bytes.len() && i < 8192
        invariant
            i <= bytes@.len(),
            i <= 8192,
            forall|k: int| 0 <= k < i ==> bytes@[k] != 0,
        decreases bytes.len() - i,
    {
        if bytes[i] == 0 {
            return true;
        }
        i = i + 1;
    }
    false
}

/// The positions of the lines whose lowercase form holds `q`, in order.
pub open spec fn matching_lines(lines: Seq<Seq<char>>, q: Seq<char>) -> Seq<int>
    decreases lines.len(),
{
    if lines.len() == 0 {
        Seq::empty()
    } else {
        let rest = matching_lines(lines.drop_last(), q);
        if seq_contains(lowercase(lines.last()), q) {
            rest.push(lines.len() - 1)
        } else {
            rest
        }
    }
}

proof fn lemma_matching_lines_prefix(lines: Seq<Seq<char>>, q: Seq<char>, j: int)
    requires
        0 <= j <= lines.len(),
    ensures
        matching_lines(lines.take(j), q).len() <= matching_lines(lines, q).len(),
        matching_lines(lines, q).take(matching_lines(lines.take(j), q).len() as int) == matching_lines(lines.take(j), q),
    decreases lines.len() - j,
{
    if j == lines.len() {
        assert(lines.take(j) == lines);
    } else {
        lemma_matching_lines_prefix(lines, q, j + 1);
        assert(lines.take(j + 1).drop_last() == lines.take(j));
        let a = matching_lines(lines.take(j), q);
        let b = matching_lines(lines.take(j + 1), q);
        let m = matching_lines(lines, q);
        assert(m.take(b.len() as int) == b);
        assert(b.take(a.len() as int) == a);
        assert(m.take(a.len() as int) == b.take(a.len() as int));
    }
}

pub open spec fn hit_view(h: ResourceSearchHit) -> (Seq<char>, int, Seq<char>) {
    (h.path@, h.line as int, h.snippet@)
}

/// The hit of line `i` of `lines` in the file at `relative`.
pub open spec fn line_hit(relative: Seq<char>, lines: Seq<Seq<char>>, i: int) -> (Seq<char>, int, Seq<char>) {
    (spec_relative_path_display(relative), i + 1, spec_compact_search_text(lines[i], 300))
}

/// How many hits one file may add: at most three, and no more than are left
/// before `limit` (but always the first).
pub open spec fn file_hit_cap(matched: int, limit: int) -> int {
    let room = if limit - matched >= 1 { limit - matched } else { 1 };
    if room < 3 { room } else { 3 }
}

/// How a readable text file changes the search: the hits it adds (its first
/// matching lines, up to the cap) and whether the search is then truncated
/// (the cap was reached) and stopped (the limit was reached).
pub open spec fn file_outcome(s: ResourceSearchState, relative: Seq<char>, text: Seq<char>) -> (Seq<(Seq<char>, int, Seq<char>)>, bool, bool) {
    let lines = spec_lines(text);
    let ms = matching_lines(lines, s.query_lower@);
    let cap = file_hit_cap(s.matches@.len() as int, s.limit as int);
    let k = if ms.len() < cap { ms.len() as int } else { cap };
    let hits = ms.take(k).map_values(|i: int| line_hit(relative, lines, i));
    let stopped = k >= 1 && s.matches@.len() + k >= s.limit;
    (hits, stopped || k >= 3, stopped)
}

pub open spec fn file_text(bytes: Option<Vec<u8>>) -> Option<Seq<char>> {
    match bytes {
        Some(b) => if !looks_binary(b@) && vstd::utf8::valid_utf8(b@) {
            Some(vstd::utf8::decode_utf8(b@))
        } else {
            None
        },
        None => None,
    }
}

fn clone_hit_path(relative: &str) -> (r: String)
    ensures
        r@ == spec_relative_path_display(relative@),
{
    relative_path_display(relative)
}

/// A file that `search_child` chose to read, with its bytes (`None` where
/// they could not be read): a binary, unreadable or non-UTF-8 file is
/// skipped; the lines of a text file that hold the search text are added as
/// hits, at most three per file, the search being truncated when a file has
/// more and stopped when the hits reach the limit.
pub fn search_file(search: &mut ResourceSearchState, relative: &str, bytes: Option<Vec<u8>>)
    requires
        old(search).files_skipped < usize::MAX,
        old(search).text_files_scanned < usize::MAX,
        old(search).matches@.len() + 3 < usize::MAX,
    ensures
        final(search).query_lower == old(search).query_lower,
        final(search).limit == old(search).limit,
        final(search).max_files == old(search).max_files,
        final(search).files_considered == old(search).files_considered,
        final(search).matches@.len() <= old(search).matches@.len() + 3,
        old(search).matches@.len() < old(search).limit ==> final(search).matches@.len() <= old(search).limit,
        match file_text(bytes) {
            None => {
                &&& final(search).files_skipped == old(search).files_skipped + 1
                &&& final(search).text_files_scanned == old(search).text_files_scanned
                &&& final(search).matches@ == old(search).matches@
                &&& final(search).truncated == old(search).truncated
                &&& final(search).stopped == old(search).stopped
            },
            Some(text) => {
                let o = file_outcome(*old(search), relative@, text);
                &&& final(search).files_skipped == old(search).files_skipped
                &&& final(search).text_files_scanned == old(search).text_files_scanned + 1
                &&& final(search).matches@.map_values(|h: ResourceSearchHit| hit_view(h))
                    == old(search).matches@.map_values(|h: ResourceSearchHit| hit_view(h)) + o.0
                &&& final(search).truncated == (old(search).truncated || o.1)
                &&& final(search).stopped == (old(search).stopped || o.2)
            },
        },
{
    let ghost b0 = bytes;
    let data = match bytes {
        Some(b) => b,
        None => {
            search.files_skipped = search.files_skipped + 1;
            return;
        },
    };
    if has_zero_prefix(&data) {
        search.files_skipped = search.files_skipped + 1;
        return;
    }
    let ghost data_view = data@;
    let text = match utf8_text(data) {
        Some(t) => t,
        None => {
            search.files_skipped = search.files_skipped + 1;
            return;
        },
    };
    assert(file_text(b0) == Some(text@));
    search.text_files_scanned = search.text_files_scanned + 1;
    let lines = lines_of(&chars_of(text.as_str()));
    let ghost ls = views(lines@);
    let ghost q = search.query_lower@;
    let ghost m0 = search.matches@.len() as int;
    let ghost start = search.matches@.map_values(|h: ResourceSearchHit| hit_view(h));
    let ghost cap = file_hit_cap(m0, search.limit as int);
    let query = chars_of(search.query_lower.as_str());
    let path = clone_hit_path(relative);
    let mut hits_in_file: usize = 0;
    let mut i: usize = 0;
    assert(ls.take(ls.len() as int) == ls);
    assert(ls.take(0) == Seq::<Seq<char>>::empty());
    while i < lines.len()
        invariant_except_break
            i <= lines@.len(),
            hits_in_file == matching_lines(ls.take(i as int), q).len(),
            hits_in_file < cap,
            search.matches@.map_values(|h: ResourceSearchHit| hit_view(h)) == start + matching_lines(ls.take(i as int), q).map_values(
                |k: int| line_hit(relative@, ls, k),
            ),
            search.truncated == old(search).truncated,
            search.stopped == old(search).stopped,
        invariant
            ls == views(lines@),
            ls.take(ls.len() as int) == ls,
            query@ == q,
            q == old(search).query_lower@,
            path@ == spec_relative_path_display(relative@),
            m0 == old(search).matches@.len(),
            start == old(search).matches@.map_values(|h: ResourceSearchHit| hit_view(h)),
            cap == file_hit_cap(m0, old(search).limit as int),
            m0 + 3 < usize::MAX,
            search.query_lower == old(search).query_lower,
            search.limit == old(search).limit,
            search.max_files == old(search).max_files,
            search.files_considered == old(search).files_considered,
            search.files_skipped == old(search).files_skipped,
            search.text_files_scanned == old(search).text_files_scanned + 1,
            search.matches@.len() == m0 + hits_in_file,
        ensures
            ({
                let ms = matching_lines(ls, q);
                let k = if ms.len() < cap { ms.len() as int } else { cap };
                let stopped = k >= 1 && m0 + k >= old(search).limit;
                &&& search.matches@.map_values(|h: ResourceSearchHit| hit_view(h)) == start + ms.take(k).map_values(
                    |j: int| line_hit(relative@, ls, j),
                )
                &&& search.truncated == (old(search).truncated || stopped || k >= 3)
                &&& search.stopped == (old(search).stopped || stopped)
            }),
        decreases lines.len() - i,
    {
        assert(ls.take(i + 1).drop_last() == ls.take(i as int));
        assert(ls.take(i + 1).last() == ls[i as int]);
        let line = string_of(&lines[i]);
        let lower = to_lowercase(line.as_str());
        let found = chars_contains(&chars_of(lower.as_str()), &query);
        if !found {
            i = i + 1;
            continue;
        }
        let ghost before = search.matches@.map_values(|h: ResourceSearchHit| hit_view(h));
        search.matches.push(ResourceSearchHit {
            path: path.clone(),
            line: i + 1,
            snippet: compact_search_text(line.as_str(), 300),
        });
        hits_in_file = hits_in_file + 1;
        proof {
            let prev = matching_lines(ls.take(i as int), q);
            let now = matching_lines(ls.take(i + 1), q);
            assert(now == prev.push(i as int));
            assert(now.map_values(|k: int| line_hit(relative@, ls, k)) == prev.map_values(|k: int| line_hit(relative@, ls, k)).push(
                line_hit(relative@, ls, i as int),
            ));
            assert(search.matches@.map_values(|h: ResourceSearchHit| hit_view(h)) == before.push(line_hit(relative@, ls, i as int)));
        }
        if search.matches.len() >= search.limit {
            search.truncated = true;
            search.stopped = true;
            proof {
                lemma_matching_lines_prefix(ls, q, i + 1);
            }
            break;
        }
        if hits_in_file >= 3 {
            search.truncated = true;
            proof {
                lemma_matching_lines_prefix(ls, q, i + 1);
            }
            break;
        }
        i = i + 1;
    }
    proof {
        if i == lines@.len() {
            assert(ls.take(i as int) == ls);
        }
    }
}


pub open spec fn clamp(v: int, lo: int, hi: int) -> int {
    if v < lo {
        lo
    } else if v > hi {
        hi
    } else {
        v
    }
}

fn clamp_exec(v: Option<usize>, default: usize, lo: usize, hi: usize) -> (r: usize)
    requires
        lo <= hi,
    ensures
        r == clamp(match v {
            Some(x) => x as int,
            None => default as int,
        }, lo as int, hi as int),
{
    let x = match v {
        Some(x) => x,
        None => default,
    };
    if x < lo {
        lo
    } else if x > hi {
        hi
    } else {
        x
    }
}

/// A fresh listing walk: at most `limit` entries (100 by default, between 1
/// and 300), at most `max_depth` levels (2 by default, between 1 and 5).
pub fn resource_listing_walk(limit: Option<usize>, max_depth: Option<usize>) -> (r: (ResourceWalkState, usize))
    ensures
        r.0.limit == clamp(match limit { Some(x) => x as int, None => 100 }, 1, 300),
        r.1 == clamp(match max_depth { Some(x) => x as int, None => 2 }, 1, 5),
        r.0.entries@.len() == 0,
        !r.0.truncated,
        r.0.skipped_generated_directories == 0,
        r.0.skipped_sensitive_entries == 0,
{
    let l = clamp_exec(limit, 100, 1, 300);
    let d = clamp_exec(max_depth, 2, 1, 5);
    (ResourceWalkState { limit: l, entries: Vec::new(), truncated: false, skipped_generated_directories: 0, skipped_sensitive_entries: 0 }, d)
}

pub open spec fn msg_bad_search_query() -> Seq<char> {
    "Поисковый запрос должен содержать от 2 до 200 символов"@
}

/// A fresh search for `query` (trimmed, of 2 to 200 characters, matched in
/// lowercase): at most `max_files` files (300 by default, between 10 and
/// 1000), `limit` hits (20 by default, between 1 and 50) and `max_depth`
/// levels (6 by default, between 1 and 12); or the error for a query of
/// another length.
pub fn resource_search(query: &str, max_files: Option<usize>, limit: Option<usize>, max_depth: Option<usize>) -> (r: Result<(ResourceSearchState, usize), String>)
    ensures
        match r {
            Ok((s, depth)) => {
                &&& 2 <= crate::text::trim_ws(query@).len() <= 200
                &&& s.query_lower@ == lowercase(crate::text::trim_ws(query@))
                &&& s.max_files == clamp(match max_files { Some(x) => x as int, None => 300 }, 10, 1000)
                &&& s.limit == clamp(match limit { Some(x) => x as int, None => 20 }, 1, 50)
                &&& depth == clamp(match max_depth { Some(x) => x as int, None => 6 }, 1, 12)
                &&& s.matches@.len() == 0
                &&& s.files_considered == 0 && s.text_files_scanned == 0 && s.files_skipped == 0
                &&& !s.truncated && !s.stopped
            },
            Err(e) => !(2 <= crate::text::trim_ws(query@).len() <= 200) && e@ == msg_bad_search_query(),
        },
{
    let q = crate::text::trim_chars(&chars_of(query));
    if q.len() < 2 || q.len() > 200 {
        return Err(String::from_str("Поисковый запрос должен содержать от 2 до 200 символов"));
    }
    let trimmed = string_of(&q);
    let lower = to_lowercase(trimmed.as_str());
    Ok((
        ResourceSearchState {
            query_lower: lower,
            max_files: clamp_exec(max_files, 300, 10, 1000),
            limit: clamp_exec(limit, 20, 1, 50),
            matches: Vec::new(),
            files_considered: 0,
            text_files_scanned: 0,
            files_skipped: 0,
            truncated: false,
            stopped: false,
        },
        clamp_exec(max_depth, 6, 1, 12),
    ))
}

pub open spec fn msg_outside_root() -> Seq<char> {
    "Путь выходит за разрешённый корень источника"@
}

/// The part of `path` below `root`, compared component by component
/// (`Path::strip_prefix` on Unix), or the error for a path outside it.
pub fn path_below_root(path: &str, root: &str) -> (r: Result<String, String>)
    ensures
        root@.len() == 0 ==> r is Ok && r->Ok_0@ == path@,
        root@.len() > 0 ==> match r {
            Ok(rest) => crate::paths::spec_strip_prefix(path@, root@) == Some(rest@),
            Err(e) => crate::paths::spec_strip_prefix(path@, root@) is None && e@ == msg_outside_root(),
        },
{
    let p = chars_of(path);
    let b = chars_of(root);
    if b.len() == 0 {
        return Ok(string_of(&p));
    }
    match crate::paths::strip_prefix_chars(&p, &b) {
        Some(rest) => Ok(string_of(&rest)),
        None => Err(String::from_str("Путь выходит за разрешённый корень источника")),
    }
}


/// A directory that the search could not open counts as skipped.
pub fn skip_unreadable_directory(search: &mut ResourceSearchState)
    requires
        old(search).files_skipped < usize::MAX,
    ensures
        final(search).files_skipped == old(search).files_skipped + 1,
        final(search).files_considered == old(search).files_considered,
        final(search).text_files_scanned == old(search).text_files_scanned,
        final(search).matches@ == old(search).matches@,
        final(search).truncated == old(search).truncated,
        final(search).stopped == old(search).stopped,
        final(search).query_lower == old(search).query_lower,
        final(search).limit == old(search).limit,
        final(search).max_files == old(search).max_files,
{
    search.files_skipped = search.files_skipped + 1;
}


pub open spec fn msg_file_path_needed() -> Seq<char> {
    "Укажите относительный путь к файлу"@
}

pub open spec fn msg_secret_file() -> Seq<char> {
    "Файл с потенциально секретными данными нельзя читать через этот коннектор"@
}

/// The relative path of a file that an agent asks to read: a valid relative
/// path that names something and does not look like a secret; the errors
/// in that order.
pub fn resource_file_path(path: &str) -> (r: Result<String, String>)
    ensures
        match crate::paths::spec_validate_relative_path(path@) {
            Err(e) => r is Err && r->Err_0@ == e,
            Ok(clean) => if clean.len() == 0 {
                r is Err && r->Err_0@ == msg_file_path_needed()
            } else if spec_path_looks_secret(clean) {
                r is Err && r->Err_0@ == msg_secret_file()
            } else {
                r is Ok && r->Ok_0@ == clean
            },
        },
{
    let clean = match crate::paths::validate_resource_relative_path(path) {
        Ok(clean) => clean,
        Err(e) => {
            return Err(e);
        },
    };
    if chars_of(clean.as_str()).len() == 0 {
        return Err(String::from_str("Укажите относительный путь к файлу"));
    }
    if resource_path_looks_secret(clean.as_str()) {
        return Err(String::from_str("Файл с потенциально секретными данными нельзя читать через этот коннектор"));
    }
    Ok(clean)
}

pub open spec fn msg_not_a_file() -> Seq<char> {
    "Указанный путь источника не является файлом"@
}

pub open spec fn msg_file_too_large() -> Seq<char> {
    "Файл больше безопасного лимита 1 МБ"@
}

/// Whether a file of that type and length may be read: only regular files
/// of at most 1 MiB.
pub fn resource_file_admission(is_file: bool, size: u64) -> (r: Result<(), String>)
    ensures
        match r {
            Ok(()) => is_file && size <= 1048576,
            Err(e) => if !is_file { e@ == msg_not_a_file() } else { size > 1048576 && e@ == msg_file_too_large() },
        },
{
    if !is_file {
        Err(String::from_str("Указанный путь источника не является файлом"))
    } else if size > 1048576 {
        Err(String::from_str("Файл больше безопасного лимита 1 МБ"))
    } else {
        Ok(())
    }
}

/// A text file as an agent reads it.
pub struct ResourceFileContent {
    pub content: String,
    pub total_chars: usize,
    pub truncated: bool,
    pub sha256: String,
}

pub open spec fn msg_binary_file() -> Seq<char> {
    "Коннектор читает только текстовые файлы"@
}

pub open spec fn msg_not_utf8() -> Seq<char> {
    "Коннектор читает только UTF-8 текстовые файлы"@
}

/// The content of a file read for an agent: refused when binary or not
/// UTF-8; otherwise its text cut to `max_chars` characters (20000 by
/// default, between 1000 and 40000), its length in characters, and the
/// SHA-256 of its bytes.
pub fn resource_file_content(bytes: Vec<u8>, max_chars: Option<usize>) -> (r: Result<ResourceFileContent, String>)
    ensures
        if looks_binary(bytes@) {
            r is Err && r->Err_0@ == msg_binary_file()
        } else if !vstd::utf8::valid_utf8(bytes@) {
            r is Err && r->Err_0@ == msg_not_utf8()
        } else {
            let text = vstd::utf8::decode_utf8(bytes@);
            let max = clamp(match max_chars { Some(x) => x as int, None => 20000 }, 1000, 40000);
            &&& r is Ok
            &&& r->Ok_0.total_chars == text.len()
            &&& r->Ok_0.truncated == (text.len() > max)
            &&& r->Ok_0.content@ == if text.len() > max {
                crate::text::spec_truncate_preserving_layout(text, max as nat)
            } else {
                text
            }
            &&& r->Ok_0.sha256@ == crate::hashing::hex_lower(crate::hashing::sha256(bytes@))
        },
{
    if has_zero_prefix(&bytes) {
        return Err(String::from_str("Коннектор читает только текстовые файлы"));
    }
    let sha256 = crate::hashing::sha256_hex(&bytes);
    let text = match utf8_text(bytes) {
        Some(t) => t,
        None => {
            return Err(String::from_str("Коннектор читает только UTF-8 текстовые файлы"));
        },
    };
    let total_chars = chars_of(text.as_str()).len();
    let max = clamp_exec(max_chars, 20000, 1000, 40000);
    let truncated = total_chars > max;
    let content = if truncated {
        crate::text::truncate_preserving_layout(text.as_str(), max)
    } else {
        text
    };
    Ok(ResourceFileContent { content, total_chars, truncated, sha256 })
}

} // verus!

use vstd::prelude::*;

use crate::chars::{chars_of, string_of};
use crate::diffs::{max_local_file_bytes, FileFacts};
use crate::git::{LocalGitTaskQuery, seq_contains, chars_contains, string_views,
    spec_git_text_match_reasons, git_text_match_reasons};
use crate::order::{seq_less, strictly_sorted, str_views, insert_sorted_unique};
use crate::paths::{split_on, split_chars, views, spec_scope_repository_relative_path,
    scope_repository_relative_path, spec_path_looks_secret, resource_path_looks_secret,
    spec_path_in_generated_dir, path_in_generated_directory};
use crate::text::{chars_take, trim_ws, trim_chars, spec_truncate_preserving_layout,
    truncate_preserving_layout};

verus! {

/// The paths of `git ls-files -z` output scoped to the configured directory
/// (invalid and outside paths dropped), in output order.
pub open spec fn scoped_listing(pieces: Seq<Seq<char>>, configured_prefix: Seq<char>) -> Seq<Seq<char>>
    decreases pieces.len(),
{
    if pieces.len() == 0 {
        Seq::empty()
    } else {
        let prev = scoped_listing(pieces.drop_last(), configured_prefix);
        match spec_scope_repository_relative_path(pieces.last(), configured_prefix) {
            Some(p) => prev.push(p),
            None => prev,
        }
    }
}

/// The most listed files searched for TODO markers.
pub open spec fn max_todo_files() -> nat {
    400
}

/// Whether `r` is the sorted, duplicate-free listing of the scoped listed
/// files, cut after the first four hundred.
pub open spec fn is_tracked_listing(r: Seq<Seq<char>>, scoped: Seq<Seq<char>>) -> bool {
    &&& strictly_sorted(r)
    &&& r.len() <= max_todo_files()
    &&& forall|y: Seq<char>| r.contains(y) ==> scoped.contains(y)
    &&& forall|y: Seq<char>|
        scoped.contains(y) && !r.contains(y) ==> r.len() == max_todo_files() && forall|i: int|
            0 <= i < r.len() ==> seq_less(#[trigger] r[i], y)
}

/// The listed files of the configured directory (`git ls-files -z -- .`
/// output), scoped, sorted, without duplicates and cut after four hundred; the
/// flag says that the cut dropped some.
pub fn repository_file_listing(ls_files: &str, configured_prefix: &str) -> (r: (Vec<String>, bool))
    ensures
        is_tracked_listing(str_views(r.0@), scoped_listing(split_on(ls_files@, '\0'), configured_prefix@)),
        r.1 == exists|y: Seq<char>|
            scoped_listing(split_on(ls_files@, '\0'), configured_prefix@).contains(y) && !str_views(r.0@).contains(y),
{
    let chars = chars_of(ls_files);
    let pieces = split_chars(&chars, '\0');
    let ghost ps = views(pieces@);
    let mut all: Vec<String> = Vec::new();
    let mut i: usize = 0;
    while i < pieces.len()
        invariant
            i <= pieces@.len(),
            ps == views(pieces@),
            strictly_sorted(str_views(all@)),
            forall|y: Seq<char>|
                str_views(all@).contains(y) <==> scoped_listing(ps.take(i as int), configured_prefix@).contains(y),
        decreases pieces.len() - i,
    {
        assert(ps.take(i as int + 1).drop_last() == ps.take(i as int));
        assert(ps.take(i as int + 1).last() == pieces@[i as int]@);
        let piece = string_of(&pieces[i]);
        let ghost prev = scoped_listing(ps.take(i as int), configured_prefix@);
        match scope_repository_relative_path(piece.as_str(), configured_prefix) {
            Some(p) => {
                let ghost pv = p@;
                insert_sorted_unique(&mut all, p);
                assert forall|y: Seq<char>|
                    str_views(all@).contains(y) <==> prev.push(pv).contains(y) by {
                    if prev.push(pv).contains(y) && y != pv {
                        let k = choose|k: int| 0 <= k < prev.push(pv).len() && prev.push(pv)[k] == y;
                        assert(prev[k] == y);
                    }
                    if prev.contains(y) {
                        let k = choose|k: int| 0 <= k < prev.len() && prev[k] == y;
                        assert(prev.push(pv)[k] == y);
                    }
                    if y == pv {
                        assert(prev.push(pv)[prev.len() as int] == y);
                    }
                }
            },
            None => {},
        }
        i = i + 1;
    }
    assert(ps.take(pieces@.len() as int) == ps);
    let ghost full = str_views(all@);
    assert(forall|y: Seq<char>| #[trigger] full.contains(y) <==> scoped_listing(ps, configured_prefix@).contains(y));
    let truncated = all.len() > 400;
    all.truncate(400);
    proof {
        let r = str_views(all@);
        let scoped = scoped_listing(ps, configured_prefix@);
        assert(r == full.take(r.len() as int));
        assert forall|y: Seq<char>| r.contains(y) implies scoped.contains(y) by {
            let k = choose|k: int| 0 <= k < r.len() && r[k] == y;
            assert(full[k] == y);
            assert(full.contains(y));
        }
        assert forall|y: Seq<char>| scoped.contains(y) && !r.contains(y) implies r.len() == 400
            && forall|i: int| 0 <= i < r.len() ==> seq_less(#[trigger] r[i], y) by {
            assert(full.contains(y));
            let k = choose|k: int| 0 <= k < full.len() && full[k] == y;
            if k < r.len() {
                assert(r[k] == y);
            }
            assert forall|i: int| 0 <= i < r.len() implies seq_less(#[trigger] r[i], y) by {
                assert(r[i] == full[i]);
            }
        }
        if truncated {
            assert(full.contains(full[400]));
            assert(scoped.contains(full[400]));
            if r.contains(full[400]) {
                let k = choose|k: int| 0 <= k < r.len() && r[k] == full[400];
                assert(full[k] == full[400]);
                crate::order::lemma_seq_less_irreflexive(full[400]);
            }
            assert(scoped.contains(full[400]) && !r.contains(full[400]));
        } else {
            assert(r == full);
            assert forall|y: Seq<char>| !(scoped.contains(y) && !r.contains(y)) by {
                assert(full.contains(y) == scoped.contains(y));
            }
        }
    }
    (all, truncated)
}

/// `s` without one trailing carriage return.
pub open spec fn strip_cr(s: Seq<char>) -> Seq<char> {
    if s.len() > 0 && s.last() == '\r' {
        s.drop_last()
    } else {
        s
    }
}

/// The lines of `s` (`str::lines`): split at `\n`, a `\r` before the `\n`
/// removed, no line after a final `\n`.
pub open spec fn spec_lines(s: Seq<char>) -> Seq<Seq<char>> {
    let pieces = split_on(s, '\n');
    let ended = pieces.drop_last().map_values(|l: Seq<char>| strip_cr(l));
    if pieces.last().len() == 0 {
        ended
    } else {
        ended.push(pieces.last())
    }
}

proof fn lemma_split_on_nonempty(s: Seq<char>, sep: char)
    ensures
        split_on(s, sep).len() >= 1,
    decreases s.len(),
{
    let k = crate::text::index_of_char(s, sep);
    if 0 <= k < s.len() {
        lemma_split_on_nonempty(s.skip(k + 1), sep);
    }
}

/// The lines of `v`.
pub(crate) fn lines_of(v: &Vec<char>) -> (r: Vec<Vec<char>>)
    ensures
        views(r@) == spec_lines(v@),
{
    let pieces = split_chars(v, '\n');
    proof {
        lemma_split_on_nonempty(v@, '\n');
    }
    let n = pieces.len();
    let ghost ps = views(pieces@);
    let mut out: Vec<Vec<char>> = Vec::new();
    let mut i: usize = 0;
    while i + 1 < n
        invariant
            n == pieces@.len(),
            n >= 1,
            i < n,
            ps == views(pieces@),
            views(out@) == ps.take(i as int).map_values(|l: Seq<char>| strip_cr(l)),
        decreases n - i,
    {
        let piece = &pieces[i];
        let stripped = if piece.len() > 0 && piece[piece.len() - 1] == '\r' {
            chars_take(piece, 0, piece.len() - 1)
        } else {
            chars_take(piece, 0, piece.len())
        };
        assert(stripped@ == strip_cr(piece@));
        let ghost before = out@;
        out.push(stripped);
        assert(views(out@) == views(before).push(strip_cr(ps[i as int])));
        assert(ps.take(i as int + 1) == ps.take(i as int).push(ps[i as int]));
        i = i + 1;
    }
    assert(ps.take(i as int) == ps.drop_last());
    let last = &pieces[n - 1];
    if last.len() > 0 {
        let ghost before = out@;
        let whole = chars_take(last, 0, last.len());
        assert(whole@ == last@);
        assert(ps.last() == last@);
        out.push(whole);
        assert(views(out@) == views(before).push(ps.last()));
    }
    out
}

/// ASCII uppercase of one character (`char::to_ascii_uppercase`).
pub open spec fn ascii_upper(c: char) -> char {
    if 'a' <= c <= 'z' {
        ((c as u32 - 32) as u8) as char
    } else {
        c
    }
}

pub open spec fn ascii_upper_seq(s: Seq<char>) -> Seq<char> {
    s.map_values(|c: char| ascii_upper(c))
}

fn ascii_upper_chars(v: &Vec<char>) -> (r: Vec<char>)
    ensures
        r@ == ascii_upper_seq(v@),
{
    let mut out: Vec<char> = Vec::new();
    let mut i: usize = 0;
    while i < v.len()
        invariant
            i <= v@.len(),
            out@ == ascii_upper_seq(v@.take(i as int)),
        decreases v.len() - i,
    {
        let c = v[i];
        let u = if 'a' <= c && c <= 'z' {
            ((c as u32 - 32) as u8) as char
        } else {
            c
        };
        out.push(u);
        i = i + 1;
        assert(out@ == ascii_upper_seq(v@.take(i as int)));
    }
    assert(v@.take(v@.len() as int) == v@);
    out
}

/// The first of the markers `TODO`, `FIXME`, `HACK`, `XXX` that an uppercased
/// line contains.
pub open spec fn todo_marker(upper: Seq<char>) -> Option<Seq<char>> {
    if seq_contains(upper, "TODO"@) {
        Some("TODO"@)
    } else if seq_contains(upper, "FIXME"@) {
        Some("FIXME"@)
    } else if seq_contains(upper, "HACK"@) {
        Some("HACK"@)
    } else if seq_contains(upper, "XXX"@) {
        Some("XXX"@)
    } else {
        None
    }
}

fn todo_marker_exec(upper: &Vec<char>) -> (r: Option<String>)
    ensures
        opt_str(r) == todo_marker(upper@),
{
    let todo = chars_of("TODO");
    if chars_contains(upper, &todo) {
        return Some(String::from_str("TODO"));
    }
    let fixme = chars_of("FIXME");
    if chars_contains(upper, &fixme) {
        return Some(String::from_str("FIXME"));
    }
    let hack = chars_of("HACK");
    if chars_contains(upper, &hack) {
        return Some(String::from_str("HACK"));
    }
    let xxx = chars_of("XXX");
    if chars_contains(upper, &xxx) {
        return Some(String::from_str("XXX"));
    }
    None
}

pub open spec fn opt_str(o: Option<String>) -> Option<Seq<char>> {
    match o {
        Some(s) => Some(s@),
        None => None,
    }
}

/// `a` followed by the reasons of `b` that `a` does not already hold.
pub open spec fn merge_reasons(a: Seq<Seq<char>>, b: Seq<Seq<char>>) -> Seq<Seq<char>>
    decreases b.len(),
{
    if b.len() == 0 {
        a
    } else {
        let prev = merge_reasons(a, b.drop_last());
        if prev.contains(b.last()) {
            prev
        } else {
            prev.push(b.last())
        }
    }
}

pub(crate) fn merge_reasons_exec(a: Vec<String>, b: &Vec<String>) -> (r: Vec<String>)
    ensures
        string_views(r@) == merge_reasons(string_views(a@), string_views(b@)),
{
    let mut out = a;
    let ghost sa = string_views(out@);
    let ghost sb = string_views(b@);
    let mut i: usize = 0;
    while i < b.len()
        invariant
            i <= b@.len(),
            sb == string_views(b@),
            string_views(out@) == merge_reasons(sa, sb.take(i as int)),
        decreases b.len() - i,
    {
        assert(sb.take(i as int + 1).drop_last() == sb.take(i as int));
        assert(sb.take(i as int + 1).last() == b@[i as int]@);
        let t = chars_of(b[i].as_str());
        let mut found = false;
        let mut j: usize = 0;
        while j < out.len()
            invariant
                j <= out@.len(),
                !found ==> forall|m: int| 0 <= m < j ==> out@[m]@ != t@,
                found ==> string_views(out@).contains(t@),
            decreases out.len() - j,
        {
            let c = chars_of(out[j].as_str());
            if crate::paths::chars_eq(&c, &t) {
                assert(string_views(out@)[j as int] == t@);
                found = true;
            }
            j = j + 1;
        }
        proof {
            if !found && string_views(out@).contains(t@) {
                let m = choose|m: int| 0 <= m < string_views(out@).len() && string_views(out@)[m] == t@;
                assert(out@[m]@ == t@);
            }
        }
        if !found {
            let ghost before = out@;
            out.push(b[i].clone());
            assert(string_views(out@) == string_views(before).push(t@));
        }
        i = i + 1;
    }
    assert(sb.take(b@.len() as int) == sb);
    out
}

/// A TODO-style marker line that relates to the task.
pub struct LocalGitTodo {
    pub path: String,
    /// One-based line number.
    pub line: usize,
    pub marker: String,
    pub text: String,
    pub match_reasons: Vec<String>,
}

pub open spec fn todo_view(t: LocalGitTodo) -> (Seq<char>, int, Seq<char>, Seq<char>, Seq<Seq<char>>) {
    (t.path@, t.line as int, t.marker@, t.text@, string_views(t.match_reasons@))
}

/// The TODO match for line `index` (zero-based) of `path`: the line holds a
/// marker and it or the path relates to the task.
pub open spec fn line_todo(path: Seq<char>, line: Seq<char>, index: int, task_id: Seq<char>, terms: Seq<Seq<char>>) -> Option<(Seq<char>, int, Seq<char>, Seq<char>, Seq<Seq<char>>)> {
    let reasons = merge_reasons(
        spec_git_text_match_reasons(line, task_id, terms),
        spec_git_text_match_reasons(path, task_id, terms),
    );
    match todo_marker(ascii_upper_seq(line)) {
        Some(marker) => if reasons.len() > 0 {
            Some((path, index + 1, marker, spec_truncate_preserving_layout(trim_ws(line), 300), reasons))
        } else {
            None
        },
        None => None,
    }
}

/// The TODO matches of the lines of one file, in line order.
pub open spec fn file_todos(path: Seq<char>, lines: Seq<Seq<char>>, task_id: Seq<char>, terms: Seq<Seq<char>>) -> Seq<(Seq<char>, int, Seq<char>, Seq<char>, Seq<Seq<char>>)>
    decreases lines.len(),
{
    if lines.len() == 0 {
        Seq::empty()
    } else {
        let prev = file_todos(path, lines.drop_last(), task_id, terms);
        match line_todo(path, lines.last(), lines.len() - 1, task_id, terms) {
            Some(t) => prev.push(t),
            None => prev,
        }
    }
}

/// The most TODO matches reported.
pub open spec fn max_todo_matches() -> nat {
    20
}

/// The content read for the `k`-th file that is searched; `None` when missing.
pub open spec fn content_at(contents: Seq<Option<Seq<char>>>, k: int) -> Option<Seq<char>> {
    if 0 <= k < contents.len() {
        contents[k]
    } else {
        None
    }
}

/// The search of the listed files, in order: secret files are counted and
/// skipped, files in generated directories skipped, and the others searched
/// with the next entry of `contents` (`None` for a file that could not be read
/// as text); the search stops after the file that brings the matches past
/// twenty. The result holds the matches found, the secret files counted and the
/// number of contents used.
pub open spec fn todo_scan(files: Seq<Seq<char>>, contents: Seq<Option<Seq<char>>>, task_id: Seq<char>, terms: Seq<Seq<char>>) -> (Seq<(Seq<char>, int, Seq<char>, Seq<char>, Seq<Seq<char>>)>, nat, int)
    decreases files.len(),
{
    if files.len() == 0 {
        (Seq::empty(), 0, 0)
    } else {
        let prev = todo_scan(files.drop_last(), contents, task_id, terms);
        let p = files.last();
        if prev.0.len() > max_todo_matches() {
            prev
        } else if spec_path_looks_secret(p) {
            (prev.0, prev.1 + 1, prev.2)
        } else if spec_path_in_generated_dir(p) {
            prev
        } else {
            match content_at(contents, prev.2) {
                Some(text) => (prev.0 + file_todos(p, spec_lines(text), task_id, terms), prev.1, prev.2 + 1),
                None => (prev.0, prev.1, prev.2 + 1),
            }
        }
    }
}

/// The files of a listed listing whose contents the TODO search reads, in
/// order: those that are neither secret nor inside a generated directory.
pub open spec fn todo_readable(files: Seq<Seq<char>>) -> Seq<Seq<char>> {
    files.filter(|p: Seq<char>| !spec_path_looks_secret(p) && !spec_path_in_generated_dir(p))
}

/// One step of `Seq::filter` on a non-empty sequence.
pub open spec fn t_filter_step(t: Seq<Seq<char>>, pred: spec_fn(Seq<char>) -> bool) -> bool {
    t.len() > 0 ==> t.filter(pred) == if pred(t.last()) {
        t.drop_last().filter(pred).push(t.last())
    } else {
        t.drop_last().filter(pred)
    }
}

/// Whether a tracked file may be read for TODO notes: only a regular file
/// that is no link and holds at most 256 KiB.
pub fn todo_file_readable(facts: Option<FileFacts>) -> (r: bool)
    ensures
        r == (facts matches Some(f) && !f.is_symlink && f.is_file && f.len <= max_local_file_bytes()),
{
    match facts {
        Some(f) => f.is_file && !f.is_symlink && f.len <= 256 * 1024,
        None => false,
    }
}

/// The files of a listing whose contents `collect_related_git_todos`
/// reads, in order.
pub fn todo_candidate_files(listed: &Vec<String>) -> (r: Vec<String>)
    ensures
        str_views(r@) == todo_readable(str_views(listed@)),
{
    let ghost ts = str_views(listed@);
    let ghost pred = |p: Seq<char>| !spec_path_looks_secret(p) && !spec_path_in_generated_dir(p);
    let mut out: Vec<String> = Vec::new();
    let mut i: usize = 0;
    while i < listed.len()
        invariant
            i <= listed@.len(),
            ts == str_views(listed@),
            pred == (|p: Seq<char>| !spec_path_looks_secret(p) && !spec_path_in_generated_dir(p)),
            str_views(out@) == ts.take(i as int).filter(pred),
        decreases listed.len() - i,
    {
        assert(ts.take(i as int + 1).drop_last() == ts.take(i as int));
        assert(ts.take(i as int + 1).last() == listed@[i as int]@);
        let p = listed[i].as_str();
        assert(t_filter_step(ts.take(i as int + 1), pred)) by {
            reveal_with_fuel(Seq::filter, 1);
        }
        if !resource_path_looks_secret(p) && !path_in_generated_directory(p) {
            let ghost before = out@;
            out.push(listed[i].clone());
            assert(str_views(out@) == str_views(before).push(listed@[i as int]@));
        }
        i = i + 1;
    }
    assert(ts.take(listed@.len() as int) == ts);
    out
}

/// The TODO matches of one file's lines.
fn file_todos_exec(path: &String, content: &str, query: &LocalGitTaskQuery) -> (r: Vec<LocalGitTodo>)
    ensures
        r@.len() == file_todos(path@, spec_lines(content@), query.task_id@, string_views(query.terms@)).len(),
        forall|k: int| 0 <= k < r@.len() ==> todo_view(#[trigger] r@[k]) == file_todos(path@, spec_lines(content@), query.task_id@, string_views(query.terms@))[k],
{
    let chars = chars_of(content);
    let lines = lines_of(&chars);
    let ghost ls = views(lines@);
    let ghost tid = query.task_id@;
    let ghost terms = string_views(query.terms@);
    let path_reasons = git_text_match_reasons(path.as_str(), query);
    let mut out: Vec<LocalGitTodo> = Vec::new();
    let mut i: usize = 0;
    while i < lines.len()
        invariant
            i <= lines@.len(),
            ls == views(lines@),
            ls == spec_lines(content@),
            tid == query.task_id@,
            terms == string_views(query.terms@),
            string_views(path_reasons@) == spec_git_text_match_reasons(path@, tid, terms),
            out@.len() == file_todos(path@, ls.take(i as int), tid, terms).len(),
            forall|k: int| 0 <= k < out@.len() ==> todo_view(#[trigger] out@[k]) == file_todos(path@, ls.take(i as int), tid, terms)[k],
        decreases lines.len() - i,
    {
        let ghost t = ls.take(i as int + 1);
        assert(t.drop_last() == ls.take(i as int));
        assert(t.last() == lines@[i as int]@);
        let upper = ascii_upper_chars(&lines[i]);
        match todo_marker_exec(&upper) {
            Some(marker) => {
                let line = string_of(&lines[i]);
                let line_reasons = git_text_match_reasons(line.as_str(), query);
                let reasons = merge_reasons_exec(line_reasons, &path_reasons);
                if reasons.len() > 0 {
                    let trimmed = string_of(&trim_chars(&lines[i]));
                    let todo = LocalGitTodo {
                        path: path.clone(),
                        line: i + 1,
                        marker,
                        text: truncate_preserving_layout(trimmed.as_str(), 300),
                        match_reasons: reasons,
                    };
                    let ghost before = out@;
                    out.push(todo);
                    assert forall|k: int| 0 <= k < out@.len() implies todo_view(#[trigger] out@[k]) == file_todos(path@, t, tid, terms)[k] by {
                        if k < before.len() {
                            assert(out@[k] == before[k]);
                        }
                    }
                }
            },
            None => {},
        }
        i = i + 1;
    }
    assert(ls.take(lines@.len() as int) == ls);
    out
}

/// The TODO, FIXME, HACK and XXX lines of the listed files (as
/// `repository_file_listing` lists them) that relate to the task, up to twenty;
/// `contents[k]` is the text of the `k`-th of `todo_candidate_files` (`None` for
/// a file that is not a regular file of at most 256 KiB or not text). The
/// result also says whether matches or files were left out, and how many secret
/// files the search passed over.
pub fn collect_related_git_todos(
    listed: &Vec<String>,
    listing_truncated: bool,
    contents: &Vec<Option<String>>,
    query: &LocalGitTaskQuery,
) -> (r: (Vec<LocalGitTodo>, bool, usize))
    ensures
        ({
            let scan = todo_scan(str_views(listed@), contents@.map_values(|c: Option<String>| opt_str(c)), query.task_id@, string_views(query.terms@));
            &&& r.0@.len() == if scan.0.len() <= max_todo_matches() { scan.0.len() } else { max_todo_matches() }
            &&& forall|k: int| 0 <= k < r.0@.len() ==> todo_view(#[trigger] r.0@[k]) == scan.0[k]
            &&& r.1 == (listing_truncated || scan.0.len() > max_todo_matches())
            &&& r.2 == scan.1
        }),
{
    let ghost fs = str_views(listed@);
    let ghost cs = contents@.map_values(|c: Option<String>| opt_str(c));
    let ghost tid = query.task_id@;
    let ghost terms = string_views(query.terms@);
    let mut found: Vec<LocalGitTodo> = Vec::new();
    let mut sensitive: usize = 0;
    let mut read: usize = 0;
    let mut i: usize = 0;
    while i < listed.len()
        invariant
            i <= listed@.len(),
            fs == str_views(listed@),
            cs == contents@.map_values(|c: Option<String>| opt_str(c)),
            tid == query.task_id@,
            terms == string_views(query.terms@),
            found@.len() == todo_scan(fs.take(i as int), cs, tid, terms).0.len(),
            forall|k: int| 0 <= k < found@.len() ==> todo_view(#[trigger] found@[k]) == todo_scan(fs.take(i as int), cs, tid, terms).0[k],
            sensitive == todo_scan(fs.take(i as int), cs, tid, terms).1,
            read == todo_scan(fs.take(i as int), cs, tid, terms).2,
            sensitive <= i,
            read <= i,
        decreases listed.len() - i,
    {
        let ghost t = fs.take(i as int + 1);
        assert(t.drop_last() == fs.take(i as int));
        assert(t.last() == listed@[i as int]@);
        let p = listed[i].as_str();
        if found.len() > 20 {
        } else if resource_path_looks_secret(p) {
            sensitive = sensitive + 1;
        } else if path_in_generated_directory(p) {
        } else {
            if read < contents.len() {
                assert(content_at(cs, read as int) == opt_str(contents@[read as int]));
                match &contents[read] {
                    Some(text) => {
                        let mut todos = file_todos_exec(&listed[i], text.as_str(), query);
                        let ghost before = found@;
                        let ghost added = todos@;
                        found.append(&mut todos);
                        assert(found@ == before + added);
                        assert forall|k: int| 0 <= k < found@.len() implies todo_view(#[trigger] found@[k]) == todo_scan(t, cs, tid, terms).0[k] by {
                            if k < before.len() {
                                assert(found@[k] == before[k]);
                            } else {
                                assert(found@[k] == added[k - before.len()]);
                            }
                        }
                    },
                    None => {},
                }
            }
            read = read + 1;
        }
        i = i + 1;
    }
    assert(fs.take(listed@.len() as int) == fs);
    let more = found.len() > 20;
    found.truncate(20);
    (found, listing_truncated || more, sensitive)
}

pub(crate) fn clone_strings(v: &Vec<String>) -> (r: Vec<String>)
    ensures
        string_views(r@) == string_views(v@),
{
    let mut out: Vec<String> = Vec::new();
    let mut i: usize = 0;
    while i < v.len()
        invariant
            i <= v@.len(),
            string_views(out@) == string_views(v@).take(i as int),
        decreases v.len() - i,
    {
        let ghost before = out@;
        out.push(v[i].clone());
        assert(string_views(out@) == string_views(before).push(v@[i as int]@));
        i = i + 1;
    }
    assert(string_views(v@).take(v@.len() as int) == string_views(v@));
    out
}

} // verus!

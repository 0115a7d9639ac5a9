use vstd::prelude::*;
use vstd::string::StringSliceAdditionalSpecFns;
use vstd::utf8::*;

use crate::chars::{chars_of, string_of};
use crate::git::{LocalGitChangedFile, LocalGitTaskQuery, opt_view, string_views,
    status_record_accepted, status_record_path, status_letter, parse_git_status_record,
    spec_git_text_match_reasons, git_text_match_reasons};
use crate::order::{seq_less, chars_less};
use crate::paths::{split_on, split_chars, views, spec_strip_prefix, spec_relative_path_display,
    spec_path_looks_secret, resource_path_looks_secret, display_chars};

verus! {

/// The values a changed file reports: path, index and worktree status, whether
/// it is untracked, whether its diff is included, why it relates to the task,
/// and a warning.
pub open spec fn change_view(c: LocalGitChangedFile) -> (Seq<char>, Option<Seq<char>>, Option<Seq<char>>, bool, bool, Seq<Seq<char>>, Option<Seq<char>>) {
    (c.path@, opt_view(c.index_status), opt_view(c.worktree_status), c.untracked, c.diff_included, string_views(c.match_reasons@), opt_view(c.warning))
}

pub type ChangeView = (Seq<char>, Option<Seq<char>>, Option<Seq<char>>, bool, bool, Seq<Seq<char>>, Option<Seq<char>>);

/// The change that one `git status --porcelain=v1 -z` record reports inside the
/// configured directory (`configured_prefix`, empty for the repository root),
/// with its path relative to that directory.
pub open spec fn status_change(record: Seq<char>, configured_prefix: Seq<char>) -> Option<ChangeView> {
    let b = encode_utf8(record);
    if !status_record_accepted(b) {
        None
    } else {
        let path = status_record_path(b);
        let untracked = b[0] == 0x3Fu8 && b[1] == 0x3Fu8;
        let scoped = if configured_prefix.len() == 0 {
            Some(path)
        } else {
            spec_strip_prefix(path, configured_prefix)
        };
        match scoped {
            Some(scoped) => if scoped.len() == 0 {
                None
            } else {
                Some((spec_relative_path_display(scoped), status_letter(b[0], untracked), status_letter(b[1], untracked), untracked, false, Seq::empty(), None))
            },
            None => None,
        }
    }
}

/// The changes of the records, in record order.
pub open spec fn status_changes(records: Seq<Seq<char>>, configured_prefix: Seq<char>) -> Seq<ChangeView>
    decreases records.len(),
{
    if records.len() == 0 {
        Seq::empty()
    } else {
        let prev = status_changes(records.drop_last(), configured_prefix);
        match status_change(records.last(), configured_prefix) {
            Some(c) => prev.push(c),
            None => prev,
        }
    }
}

/// Where a stable sort by path puts `c` among the already sorted `s`: after
/// every change whose path does not come after its own.
pub open spec fn stable_position(s: Seq<ChangeView>, c: ChangeView) -> int
    decreases s.len(),
{
    if s.len() == 0 {
        0
    } else if seq_less(c.0, s.last().0) {
        stable_position(s.drop_last(), c)
    } else {
        s.len() as int
    }
}

/// The changes sorted by path, changes with equal paths in their original
/// order (`sort_by` on the path, a stable sort).
pub open spec fn sort_changes(s: Seq<ChangeView>) -> Seq<ChangeView>
    decreases s.len(),
{
    if s.len() == 0 {
        s
    } else {
        let sorted = sort_changes(s.drop_last());
        sorted.insert(stable_position(sorted, s.last()), s.last())
    }
}

/// The changes of a `git status --porcelain=v1 -z` output inside the
/// configured directory, sorted by path.
pub open spec fn spec_sorted_changes(status: Seq<char>, configured_prefix: Seq<char>) -> Seq<ChangeView> {
    sort_changes(status_changes(split_on(status, '\0'), configured_prefix))
}

/// Whether a change is shown (its path is not a secret).
pub open spec fn change_shown() -> spec_fn(ChangeView) -> bool {
    |c: ChangeView| !spec_path_looks_secret(c.0)
}

/// The changes the context reports, as `changed_files_of` selects them.
pub open spec fn spec_selected_change(c: ChangeView, task_id: Seq<char>, terms: Seq<Seq<char>>) -> ChangeView {
    (c.0, c.1, c.2, c.3, c.4, spec_git_text_match_reasons(c.0, task_id, terms), c.6)
}

/// The changed files of the local context: the files of the status output
/// inside the configured directory, sorted by path, secrets omitted, up to
/// `file_limit`, each with the reasons its path relates to the task.
pub struct LocalGitChanges {
    pub changed_files: Vec<LocalGitChangedFile>,
    /// Changed files inside the configured directory, secrets included.
    pub total_changed_files: usize,
    /// Some shown files were cut by the limit, or secrets were omitted.
    pub files_truncated: bool,
    pub omitted_sensitive_files: usize,
}

fn change_of(c: &LocalGitChangedFile) -> (r: LocalGitChangedFile)
    ensures
        change_view(r) == change_view(*c),
{
    LocalGitChangedFile {
        path: c.path.clone(),
        index_status: match &c.index_status {
            Some(s) => Some(s.clone()),
            None => None,
        },
        worktree_status: match &c.worktree_status {
            Some(s) => Some(s.clone()),
            None => None,
        },
        untracked: c.untracked,
        diff_included: c.diff_included,
        match_reasons: crate::todos::clone_strings(&c.match_reasons),
        warning: match &c.warning {
            Some(s) => Some(s.clone()),
            None => None,
        },
    }
}

/// The change of one status record inside the configured directory.
fn status_change_exec(record: &Vec<char>, configured_prefix: &str) -> (r: Option<LocalGitChangedFile>)
    ensures
        match r {
            Some(c) => status_change(record@, configured_prefix@) == Some(change_view(c)),
            None => status_change(record@, configured_prefix@) is None,
        },
{
    let text = string_of(record);
    let text_str = text.as_str();
    assert(text_str.spec_bytes() == encode_utf8(record@));
    let parsed = match parse_git_status_record(text_str) {
        Some(c) => c,
        None => return None,
    };
    let path_chars = chars_of(parsed.path.as_str());
    let prefix = chars_of(configured_prefix);
    let scoped = if prefix.len() == 0 {
        path_chars
    } else {
        match crate::paths::strip_prefix_chars(&path_chars, &prefix) {
            Some(rest) => rest,
            None => return None,
        }
    };
    if scoped.len() == 0 {
        return None;
    }
    let shown = display_chars(&scoped);
    Some(LocalGitChangedFile { path: string_of(&shown), ..parsed })
}

/// The index at which a stable sort by path inserts a change with path `p`.
fn stable_position_exec(v: &Vec<LocalGitChangedFile>, p: &Vec<char>) -> (r: usize)
    ensures
        r as int == stable_position(v@.map_values(|c: LocalGitChangedFile| change_view(c)), (p@, None, None, false, false, Seq::empty(), None)),
        r <= v@.len(),
{
    let ghost s = v@.map_values(|c: LocalGitChangedFile| change_view(c));
    let ghost key: ChangeView = (p@, None, None, false, false, Seq::empty(), None);
    let mut j: usize = v.len();
    assert(s.take(j as int) == s);
    while j > 0
        invariant
            j <= v@.len(),
            s == v@.map_values(|c: LocalGitChangedFile| change_view(c)),
            key == (p@, None::<Seq<char>>, None::<Seq<char>>, false, false, Seq::<Seq<char>>::empty(), None::<Seq<char>>),
            stable_position(s.take(j as int), key) == stable_position(s, key),
        ensures
            j <= v@.len(),
            stable_position(s.take(j as int), key) == stable_position(s, key),
            j == 0 || !seq_less(p@, s[j - 1].0),
        decreases j,
    {
        let cur = chars_of(v[j - 1].path.as_str());
        assert(s.take(j as int).drop_last() == s.take(j - 1));
        assert(s.take(j as int).last() == change_view(v@[j - 1]));
        assert(cur@ == s.take(j as int).last().0);
        if !chars_less(p, &cur) {
            break;
        }
        j = j - 1;
    }
    proof {
        if j > 0 {
            assert(s.take(j as int).last() == s[j - 1]);
        }
    }
    j
}

proof fn lemma_stable_position_key(s: Seq<ChangeView>, c: ChangeView, d: ChangeView)
    requires
        c.0 == d.0,
    ensures
        stable_position(s, c) == stable_position(s, d),
    decreases s.len(),
{
    if s.len() > 0 {
        lemma_stable_position_key(s.drop_last(), c, d);
    }
}

proof fn lemma_stable_position_bounds(s: Seq<ChangeView>, c: ChangeView)
    ensures
        0 <= stable_position(s, c) <= s.len(),
    decreases s.len(),
{
    if s.len() > 0 {
        lemma_stable_position_bounds(s.drop_last(), c);
    }
}

/// The changes of a status output inside the configured directory, sorted by
/// path.
fn sorted_changes_exec(status: &str, configured_prefix: &str) -> (r: Vec<LocalGitChangedFile>)
    ensures
        r@.map_values(|c: LocalGitChangedFile| change_view(c)) == spec_sorted_changes(status@, configured_prefix@),
{
    let chars = chars_of(status);
    let records = split_chars(&chars, '\0');
    let ghost rs = views(records@);
    let mut out: Vec<LocalGitChangedFile> = Vec::new();
    let mut i: usize = 0;
    while i < records.len()
        invariant
            i <= records@.len(),
            rs == views(records@),
            rs == split_on(status@, '\0'),
            out@.map_values(|c: LocalGitChangedFile| change_view(c)) == sort_changes(status_changes(rs.take(i as int), configured_prefix@)),
        decreases records.len() - i,
    {
        assert(rs.take(i as int + 1).drop_last() == rs.take(i as int));
        assert(rs.take(i as int + 1).last() == records@[i as int]@);
        match status_change_exec(&records[i], configured_prefix) {
            Some(c) => {
                let p = chars_of(c.path.as_str());
                let pos = stable_position_exec(&out, &p);
                let ghost before = out@.map_values(|c: LocalGitChangedFile| change_view(c));
                proof {
                    lemma_stable_position_key(before, (p@, None, None, false, false, Seq::empty(), None), change_view(c));
                }
                let ghost cv = change_view(c);
                proof {
                    lemma_stable_position_bounds(before, cv);
                    let t = rs.take(i as int + 1);
                    assert(status_changes(t, configured_prefix@) == status_changes(rs.take(i as int), configured_prefix@).push(cv));
                    assert(status_changes(t, configured_prefix@).drop_last() == status_changes(rs.take(i as int), configured_prefix@));
                    assert(sort_changes(status_changes(t, configured_prefix@)) == before.insert(stable_position(before, cv), cv));
                }
                out.insert(pos, c);
                assert(out@.map_values(|c: LocalGitChangedFile| change_view(c)) == before.insert(pos as int, cv));
            },
            None => {
                assert(status_changes(rs.take(i as int + 1), configured_prefix@) == status_changes(rs.take(i as int), configured_prefix@));
            },
        }
        i = i + 1;
    }
    assert(rs.take(records@.len() as int) == rs);
    out
}

/// The changed files of a `git status --porcelain=v1 -z --untracked-files=normal
/// -- .` output: those inside the configured directory (`configured_prefix`,
/// empty for the repository root) with paths relative to it, sorted by path,
/// secret files omitted, cut after `file_limit`, each with the reasons its path
/// relates to the task.
pub fn local_git_changed_files(status: &str, configured_prefix: &str, file_limit: usize, query: &LocalGitTaskQuery) -> (r: LocalGitChanges)
    ensures
        ({
            let sorted = spec_sorted_changes(status@, configured_prefix@);
            let shown = sorted.filter(change_shown());
            let omitted = sorted.len() - shown.len();
            &&& r.total_changed_files == sorted.len()
            &&& r.omitted_sensitive_files == omitted
            &&& r.files_truncated == (shown.len() > file_limit || omitted > 0)
            &&& r.changed_files@.len() == if shown.len() <= file_limit { shown.len() as int } else { file_limit as int }
            &&& forall|k: int| 0 <= k < r.changed_files@.len() ==> change_view(#[trigger] r.changed_files@[k]) == spec_selected_change(shown[k], query.task_id@, string_views(query.terms@))
        }),
{
    let sorted = sorted_changes_exec(status, configured_prefix);
    let ghost sv = sorted@.map_values(|c: LocalGitChangedFile| change_view(c));
    let ghost pred = change_shown();
    let total = sorted.len();
    let mut shown: Vec<LocalGitChangedFile> = Vec::new();
    let mut omitted: usize = 0;
    let mut i: usize = 0;
    while i < sorted.len()
        invariant
            i <= sorted@.len(),
            sv == sorted@.map_values(|c: LocalGitChangedFile| change_view(c)),
            pred == change_shown(),
            shown@.map_values(|c: LocalGitChangedFile| change_view(c)) == sv.take(i as int).filter(pred),
            omitted + sv.take(i as int).filter(pred).len() == i,
        decreases sorted.len() - i,
    {
        let ghost t = sv.take(i as int + 1);
        assert(t.drop_last() == sv.take(i as int));
        assert(t.last() == change_view(sorted@[i as int]));
        assert(t.filter(pred) == if pred(t.last()) {
            t.drop_last().filter(pred).push(t.last())
        } else {
            t.drop_last().filter(pred)
        }) by {
            reveal_with_fuel(Seq::filter, 1);
        }
        if resource_path_looks_secret(sorted[i].path.as_str()) {
            omitted = omitted + 1;
        } else {
            let ghost before = shown@.map_values(|c: LocalGitChangedFile| change_view(c));
            let c = change_of(&sorted[i]);
            shown.push(c);
            assert(shown@.map_values(|c: LocalGitChangedFile| change_view(c)) == before.push(change_view(sorted@[i as int])));
        }
        i = i + 1;
    }
    assert(sv.take(sorted@.len() as int) == sv);
    let ghost shown_all = shown@.map_values(|c: LocalGitChangedFile| change_view(c));
    let files_truncated = shown.len() > file_limit || omitted > 0;
    shown.truncate(file_limit);
    let mut files: Vec<LocalGitChangedFile> = Vec::new();
    let mut k: usize = 0;
    while k < shown.len()
        invariant
            k <= shown@.len(),
            shown@.len() <= shown_all.len(),
            forall|j: int| 0 <= j < shown@.len() ==> change_view(#[trigger] shown@[j]) == shown_all[j],
            files@.len() == k,
            forall|j: int| 0 <= j < k ==> change_view(#[trigger] files@[j]) == spec_selected_change(shown_all[j], query.task_id@, string_views(query.terms@)),
        decreases shown.len() - k,
    {
        let reasons = git_text_match_reasons(shown[k].path.as_str(), query);
        let mut c = change_of(&shown[k]);
        c.match_reasons = reasons;
        let ghost before = files@;
        files.push(c);
        assert forall|j: int| 0 <= j < k + 1 implies change_view(#[trigger] files@[j]) == spec_selected_change(shown_all[j], query.task_id@, string_views(query.terms@)) by {
            if j < k {
                assert(files@[j] == before[j]);
            }
        }
        k = k + 1;
    }
    LocalGitChanges { changed_files: files, total_changed_files: total, files_truncated, omitted_sensitive_files: omitted }
}


/// The last commit of a working copy.
pub struct LocalGitHead {
    pub sha: String,
    pub short_sha: String,
    pub subject: String,
    pub committed_at: Option<String>,
}

/// `s` without the carriage returns and line feeds at its end.
pub open spec fn trim_line_ends(s: Seq<char>) -> Seq<char>
    decreases s.len(),
{
    if s.len() > 0 && (s.last() == '\r' || s.last() == '\n') {
        trim_line_ends(s.drop_last())
    } else {
        s
    }
}

pub open spec fn piece_or_empty(ps: Seq<Seq<char>>, i: int) -> Seq<char> {
    if 0 <= i < ps.len() {
        ps[i]
    } else {
        Seq::empty()
    }
}

/// What `git log -1 --format=%H%x00%h%x00%s%x00%cI` says of the last commit:
/// its sha, short sha, subject and commit time (when not empty); nothing
/// where no sha is given.
pub open spec fn spec_git_head(output: Seq<char>) -> Option<(Seq<char>, Seq<char>, Seq<char>, Option<Seq<char>>)> {
    let ps = split_on(trim_line_ends(output), '\0');
    if ps.len() == 0 || ps[0].len() == 0 {
        None
    } else {
        Some((ps[0], piece_or_empty(ps, 1), piece_or_empty(ps, 2), if ps.len() > 3 && ps[3].len() > 0 {
            Some(ps[3])
        } else {
            None
        }))
    }
}

pub open spec fn head_view(h: LocalGitHead) -> (Seq<char>, Seq<char>, Seq<char>, Option<Seq<char>>) {
    (h.sha@, h.short_sha@, h.subject@, opt_view(h.committed_at))
}

/// The last commit that a `git log -1` output reports.
pub fn parse_git_head(output: &str) -> (r: Option<LocalGitHead>)
    ensures
        match r {
            Some(h) => spec_git_head(output@) == Some(head_view(h)),
            None => spec_git_head(output@) is None,
        },
{
    let mut v = chars_of(output);
    while v.len() > 0 && (v[v.len() - 1] == '\r' || v[v.len() - 1] == '\n')
        invariant
            trim_line_ends(v@) == trim_line_ends(output@),
        decreases v.len(),
    {
        v.pop();
    }
    let parts = split_chars(&v, '\0');
    if parts.len() == 0 || parts[0].len() == 0 {
        return None;
    }
    let short_sha = if parts.len() > 1 { string_of(&parts[1]) } else { String::new() };
    let subject = if parts.len() > 2 { string_of(&parts[2]) } else { String::new() };
    let committed_at = if parts.len() > 3 && parts[3].len() > 0 { Some(string_of(&parts[3])) } else { None };
    Some(LocalGitHead { sha: string_of(&parts[0]), short_sha, subject, committed_at })
}

/// The branch that `git symbolic-ref --short -q HEAD` names (its output, or
/// `None` where the command failed): trimmed, and none where that leaves
/// nothing, as on a detached head.
pub fn git_branch_name(symbolic_ref: Option<String>) -> (r: Option<String>)
    ensures
        match symbolic_ref {
            Some(out) => if crate::text::trim_ws(out@).len() > 0 {
                r is Some && r->0@ == crate::text::trim_ws(out@)
            } else {
                r is None
            },
            None => r is None,
        },
{
    match symbolic_ref {
        Some(out) => {
            let t = crate::text::trim_chars(&chars_of(out.as_str()));
            if t.len() > 0 {
                Some(string_of(&t))
            } else {
                None
            }
        },
        None => None,
    }
}

/// How the configured directory sits in its repository: at its root when
/// the prefix is empty, else in a subdirectory.
pub fn configured_scope_name(configured_prefix: &str) -> (r: &'static str)
    ensures
        r@ == if configured_prefix@.len() == 0 { "repository_root"@ } else { "repository_subdirectory"@ },
{
    if chars_of(configured_prefix).len() == 0 {
        "repository_root"
    } else {
        "repository_subdirectory"
    }
}


/// How the local context sums up what it left out: the secret files that
/// either the changed files or the TODO search passed over (the larger
/// count), and whether related commits or TODO lines were cut.
pub fn local_git_omissions(changes_sensitive: usize, todos_sensitive: usize, commits_truncated: bool, todos_truncated: bool) -> (r: (usize, bool))
    ensures
        r.0 == if changes_sensitive >= todos_sensitive { changes_sensitive } else { todos_sensitive },
        r.1 == (commits_truncated || todos_truncated),
{
    (if changes_sensitive >= todos_sensitive { changes_sensitive } else { todos_sensitive }, commits_truncated || todos_truncated)
}


/// The bounds of a local Git context: at most `file_limit` changed files (50
/// by default, between 1 and 100) and a diff of `diff_max_chars` characters
/// (20 000 by default, between 4 000 and 40 000).
pub fn local_git_limits(file_limit: Option<usize>, diff_max_chars: Option<usize>) -> (r: (usize, usize))
    ensures
        r.0 == crate::walk::clamp(match file_limit { Some(x) => x as int, None => 50 }, 1, 100),
        r.1 == crate::walk::clamp(match diff_max_chars { Some(x) => x as int, None => 20_000 }, 4_000, 40_000),
{
    let files: usize = match file_limit {
        Some(x) => if x < 1 { 1 } else if x > 100 { 100 } else { x },
        None => 50,
    };
    let chars: usize = match diff_max_chars {
        Some(x) => if x < 4_000 { 4_000 } else if x > 40_000 { 40_000 } else { x },
        None => 20_000,
    };
    (files, chars)
}


/// A path segment that names a file or directory: not empty, not `.` or
/// `..`, without `/` or `\\`.
pub open spec fn plain_name(s: Seq<char>) -> bool {
    &&& s.len() > 0
    &&& s != crate::paths::dot()
    &&& s != crate::paths::dot_dot()
    &&& forall|i: int| 0 <= i < s.len() ==> #[trigger] s[i] != '/' && s[i] != '\\'
}

proof fn lemma_split_plain(s: Seq<char>)
    requires
        plain_name(s),
    ensures
        split_on(s, '/') == seq![s],
{
    crate::text::lemma_index_of_char_unique(s, '/', s.len() as int);
}

proof fn lemma_split_two(a: Seq<char>, b: Seq<char>)
    requires
        plain_name(a),
        plain_name(b),
    ensures
        split_on(a + "/"@ + b, '/') == seq![a, b],
{
    let path = a + "/"@ + b;
    reveal_strlit("/");
    assert(path[a.len() as int] == '/');
    assert forall|j: int| 0 <= j < a.len() implies path[j] != '/' by {
        assert(path[j] == a[j]);
    }
    crate::text::lemma_index_of_char_unique(path, '/', a.len() as int);
    assert(path.take(a.len() as int) =~= a);
    assert(path.skip(a.len() as int + 1) =~= b);
    lemma_split_plain(b);
}

/// The components of a plain name: one normal component.
proof fn lemma_parts_of_plain(s: Seq<char>)
    requires
        plain_name(s),
    ensures
        crate::paths::path_parts(s) == seq![(crate::paths::PathPartKind::Normal, 0int)],
{
    lemma_split_plain(s);
    let segs = split_on(s, '/');
    assert(crate::paths::segment_part(segs, 0) == Some(crate::paths::PathPartKind::Normal));
    assert(crate::paths::parts_from(segs, 1) == Seq::<(crate::paths::PathPartKind, int)>::empty());
    assert(crate::paths::parts_from(segs, 0) =~= seq![(crate::paths::PathPartKind::Normal, 0int)]);
}

/// Law: the changes of a Git status are scoped to the configured directory
/// `dir` (a plain name): a record whose path begins with another plain name
/// gives no change, and a record for `dir/name` (`name` a plain name) gives
/// a change whose path is `name`, relative to the directory.
pub proof fn lemma_status_scoped_to_directory(record: Seq<char>, dir: Seq<char>, name: Seq<char>)
    requires
        plain_name(dir),
    ensures
        ({
            let path = crate::git::status_record_path(encode_utf8(record));
            plain_name(split_on(path, '/')[0]) && split_on(path, '/')[0] != dir ==> status_change(record, dir)
                is None
        }),
        ({
            let b = encode_utf8(record);
            crate::git::status_record_accepted(b) && plain_name(name) && crate::git::status_record_path(b) == dir
                + "/"@ + name ==> (status_change(record, dir) matches Some(c) && c.0 == name)
        }),
{
    let b = encode_utf8(record);
    let path = crate::git::status_record_path(b);
    let segs = split_on(path, '/');
    lemma_parts_of_plain(dir);
    lemma_split_plain(dir);
    let first = segs[0];
    if plain_name(first) && first != dir {
        crate::text::lemma_index_of_char_bounds(path, '/');
        assert(path.len() > 0);
        assert(crate::paths::segment_part(segs, 0) == Some(crate::paths::PathPartKind::Normal));
        let pp = crate::paths::path_parts(path);
        assert(pp[0] == (crate::paths::PathPartKind::Normal, 0int));
        assert(!crate::paths::parts_are_prefix(path, dir));
        assert(crate::paths::spec_strip_prefix(path, dir) is None);
    }
    if crate::git::status_record_accepted(b) && plain_name(name) && path == dir + "/"@ + name {
        lemma_split_two(dir, name);
        assert(segs == seq![dir, name]);
        assert(crate::paths::segment_part(segs, 0) == Some(crate::paths::PathPartKind::Normal));
        assert(crate::paths::segment_part(segs, 1) == Some(crate::paths::PathPartKind::Normal));
        assert(crate::paths::parts_from(segs, 2) == Seq::<(crate::paths::PathPartKind, int)>::empty());
        assert(crate::paths::parts_from(segs, 1) =~= seq![(crate::paths::PathPartKind::Normal, 1int)]);
        let pp = crate::paths::path_parts(path);
        assert(pp =~= seq![(crate::paths::PathPartKind::Normal, 0int), (crate::paths::PathPartKind::Normal, 1int)]);
        assert(crate::paths::parts_are_prefix(path, dir));
        assert(segs.skip(1) =~= seq![name]);
        assert(crate::paths::trim_front_fillers(seq![name]) == seq![name]);
        assert(crate::paths::trim_back_fillers(seq![name]) == seq![name]);
        assert(crate::paths::join_with(seq![name], '/') == name);
        assert(crate::paths::spec_strip_prefix(path, dir) == Some(name));
        assert(crate::paths::forward_slashes(name) =~= name);
    }
}


/// Law: the changes of a Git status come sorted by path: no change is listed
/// after one whose path comes after its own.
pub proof fn lemma_changes_sorted_by_path(status: Seq<char>, configured_prefix: Seq<char>)
    ensures
        forall|i: int, j: int|
            0 <= i < j < spec_sorted_changes(status, configured_prefix).len() ==> !seq_less(
                (#[trigger] spec_sorted_changes(status, configured_prefix)[j]).0,
                (#[trigger] spec_sorted_changes(status, configured_prefix)[i]).0,
            ),
{
    lemma_sort_changes_sorted(status_changes(split_on(status, '\0'), configured_prefix));
}

proof fn lemma_path_not_less(a: Seq<char>, b: Seq<char>, c: Seq<char>)
    requires
        !seq_less(a, b),
        !seq_less(b, c),
    ensures
        !seq_less(a, c),
{
    if a != b && b != c {
        crate::order::lemma_seq_less_total(a, b);
        crate::order::lemma_seq_less_total(b, c);
        crate::order::lemma_seq_less_transitive(c, b, a);
        if seq_less(a, c) {
            crate::order::lemma_seq_less_transitive(a, c, a);
            crate::order::lemma_seq_less_irreflexive(a);
        }
    }
}

proof fn lemma_stable_position_places(s: Seq<ChangeView>, c: ChangeView)
    ensures
        0 <= stable_position(s, c) <= s.len(),
        forall|k: int| stable_position(s, c) <= k < s.len() ==> seq_less(c.0, (#[trigger] s[k]).0),
        stable_position(s, c) > 0 ==> !seq_less(c.0, s[stable_position(s, c) - 1].0),
    decreases s.len(),
{
    if s.len() > 0 {
        let rest = s.drop_last();
        lemma_stable_position_places(rest, c);
        if seq_less(c.0, s.last().0) {
            let p = stable_position(rest, c);
            assert forall|k: int| p <= k < s.len() implies seq_less(c.0, (#[trigger] s[k]).0) by {
                if k < rest.len() {
                    assert(rest[k] == s[k]);
                }
            }
            if p > 0 {
                assert(rest[p - 1] == s[p - 1]);
            }
        }
    }
}

proof fn lemma_sort_changes_sorted(s: Seq<ChangeView>)
    ensures
        forall|i: int, j: int|
            0 <= i < j < sort_changes(s).len() ==> !seq_less(
                (#[trigger] sort_changes(s)[j]).0,
                (#[trigger] sort_changes(s)[i]).0,
            ),
    decreases s.len(),
{
    if s.len() > 0 {
        let rest = s.drop_last();
        let c = s.last();
        lemma_sort_changes_sorted(rest);
        let sorted = sort_changes(rest);
        let p = stable_position(sorted, c);
        lemma_stable_position_places(sorted, c);
        let r = sorted.insert(p, c);
        assert forall|i: int, j: int| 0 <= i < j < r.len() implies !seq_less((#[trigger] r[j]).0, (#[trigger] r[i]).0) by {
            if i < p && j < p {
                assert(r[i] == sorted[i] && r[j] == sorted[j]);
            } else if i < p && j == p {
                assert(r[i] == sorted[i]);
                if i < p - 1 {
                    assert(!seq_less(sorted[p - 1].0, sorted[i].0));
                    lemma_path_not_less(c.0, sorted[p - 1].0, sorted[i].0);
                }
            } else if i < p {
                assert(r[i] == sorted[i] && r[j] == sorted[j - 1]);
            } else if i == p {
                assert(r[j] == sorted[j - 1]);
                assert(seq_less(c.0, sorted[j - 1].0));
                if seq_less(sorted[j - 1].0, c.0) {
                    crate::order::lemma_seq_less_transitive(c.0, sorted[j - 1].0, c.0);
                    crate::order::lemma_seq_less_irreflexive(c.0);
                }
            } else {
                assert(r[i] == sorted[i - 1] && r[j] == sorted[j - 1]);
            }
        }
    }
}

} // verus!

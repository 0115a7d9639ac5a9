use vstd::prelude::*;
use vstd::string::StringSliceAdditionalSpecFns;
use vstd::utf8::*;

use crate::chars::{chars_of, string_of};
use crate::paths::{spec_validate_relative_path, validate_relative_chars, chars_is};
use crate::text::{chars_take, spec_compact_task_title, compact_task_title, trim_ws, trim_chars,
    spec_truncate_preserving_layout, truncate_preserving_layout};
use crate::paths::{split_on, split_chars, views, spec_scope_repository_relative_path,
    scope_repository_relative_path, spec_path_looks_secret, resource_path_looks_secret};
use crate::unicode::{lowercase, alphanumeric, to_lowercase, is_alphanumeric};

verus! {

broadcast use vstd::string::group_string_axioms;

/// One entry of `git status --porcelain=v1 -z`.
pub struct LocalGitChangedFile {
    pub path: String,
    /// Status letter in the index, absent when unchanged or untracked.
    pub index_status: Option<String>,
    /// Status letter in the working tree, absent when unchanged or untracked.
    pub worktree_status: Option<String>,
    pub untracked: bool,
    pub diff_included: bool,
    pub match_reasons: Vec<String>,
    pub warning: Option<String>,
}

/// The view of an optional string.
pub open spec fn opt_view(o: Option<String>) -> Option<Seq<char>> {
    match o {
        Some(s) => Some(s@),
        None => None,
    }
}

/// Whether the bytes of a status record have the porcelain shape: two status
/// bytes, a space, then a path that starts on a character boundary.
pub open spec fn status_record_shape(b: Seq<u8>) -> bool {
    b.len() >= 4 && b[2] == 0x20u8 && is_char_boundary(b, 3)
}

/// The path of a well-shaped status record.
pub open spec fn status_record_path(b: Seq<u8>) -> Seq<char> {
    decode_utf8(b.skip(3))
}

/// A status byte as reported: absent for an untracked entry or a space.
pub open spec fn status_letter(byte: u8, untracked: bool) -> Option<Seq<char>> {
    if !untracked && byte != 0x20u8 {
        Some(seq![byte as char])
    } else {
        None
    }
}

/// Whether `parse_git_status_record` accepts the record with these bytes.
pub open spec fn status_record_accepted(b: Seq<u8>) -> bool {
    status_record_shape(b) && spec_validate_relative_path(status_record_path(b)) is Ok
}

/// A porcelain status record (`XY path`) read into a changed file: `??` marks
/// an untracked file; records that are malformed or whose path is not a valid
/// relative path are dropped.
pub fn parse_git_status_record(record: &str) -> (r: Option<LocalGitChangedFile>)
    ensures
        r is Some <==> status_record_accepted(record.spec_bytes()),
        r matches Some(f) ==> {
            let b = record.spec_bytes();
            let untracked = b[0] == 0x3Fu8 && b[1] == 0x3Fu8;
            &&& f.path@ == status_record_path(b)
            &&& f.untracked == untracked
            &&& opt_view(f.index_status) == status_letter(b[0], untracked)
            &&& opt_view(f.worktree_status) == status_letter(b[1], untracked)
            &&& !f.diff_included
            &&& f.match_reasons@.len() == 0
            &&& f.warning is None
        },
{
    let bytes = record.as_bytes();
    if bytes.len() < 4 || bytes[2] != 0x20u8 {
        return None;
    }
    if !record.is_char_boundary(3) {
        return None;
    }
    let (_, tail) = record.split_at(3);
    proof {
        encode_utf8_decode_utf8(tail@);
        assert(tail@ == status_record_path(record.spec_bytes()));
    }
    let path_chars = chars_of(tail);
    if path_chars.len() == 0 {
        return None;
    }
    match validate_relative_chars(&path_chars) {
        Ok(_) => {},
        Err(_) => return None,
    }
    let index = bytes[0] as char;
    let worktree = bytes[1] as char;
    let untracked = index == '?' && worktree == '?';
    let index_status = if !untracked && index != ' ' {
        let v = vec![index];
        Some(string_of(&v))
    } else {
        None
    };
    let worktree_status = if !untracked && worktree != ' ' {
        let v = vec![worktree];
        Some(string_of(&v))
    } else {
        None
    };
    Some(
        LocalGitChangedFile {
            path: string_of(&path_chars),
            index_status,
            worktree_status,
            untracked,
            diff_included: false,
            match_reasons: Vec::new(),
            warning: None,
        },
    )
}

/// Whether `needle` occurs in `hay` (`str::contains`).
pub open spec fn seq_contains(hay: Seq<char>, needle: Seq<char>) -> bool {
    exists|i: int|
        0 <= i && i + needle.len() <= hay.len() && #[trigger] hay.subrange(i, i + needle.len())
            == needle
}

/// Whether `needle` occurs in `hay`.
pub(crate) fn chars_contains(hay: &Vec<char>, needle: &Vec<char>) -> (r: bool)
    ensures
        r == seq_contains(hay@, needle@),
{
    let n = needle.len();
    let h = hay.len();
    if n > h {
        return false;
    }
    let mut i: usize = 0;
    while i <= h - n
        invariant
            n == needle@.len(),
            h == hay@.len(),
            n <= h,
            i <= h - n + 1,
            forall|k: int| 0 <= k < i ==> #[trigger] hay@.subrange(k, k + n) != needle@,
        decreases h - n + 1 - i,
    {
        let mut j: usize = 0;
        while j < n && hay[i + j] == needle[j]
            invariant
                j <= n,
                i + n <= h,
                n == needle@.len(),
                h == hay@.len(),
                forall|m: int| 0 <= m < j ==> hay@[i + m] == needle@[m],
            decreases n - j,
        {
            j = j + 1;
        }
        if j == n {
            assert(hay@.subrange(i as int, i + n) == needle@);
            return true;
        }
        assert(hay@.subrange(i as int, i + n)[j as int] != needle@[j as int]);
        i = i + 1;
    }
    false
}

/// Index of the first character of `s` that satisfies `pred`, or `s.len()`.
pub open spec fn index_where(s: Seq<char>, pred: spec_fn(char) -> bool) -> int
    decreases s.len(),
{
    if s.len() == 0 {
        0
    } else if pred(s[0]) {
        0
    } else {
        1 + index_where(s.drop_first(), pred)
    }
}

/// The pieces of `s` between the characters that satisfy `pred`
/// (`str::split` with a character predicate).
pub open spec fn split_where(s: Seq<char>, pred: spec_fn(char) -> bool) -> Seq<Seq<char>>
    decreases s.len(),
{
    let k = index_where(s, pred);
    if 0 <= k < s.len() {
        seq![s.take(k)] + split_where(s.skip(k + 1), pred)
    } else {
        seq![s]
    }
}

pub(crate) proof fn lemma_index_where_unique(s: Seq<char>, pred: spec_fn(char) -> bool, k: int)
    requires
        0 <= k <= s.len(),
        k < s.len() ==> pred(s[k]),
        forall|j: int| 0 <= j < k ==> !pred(#[trigger] s[j]),
    ensures
        index_where(s, pred) == k,
    decreases s.len(),
{
    if s.len() > 0 && k > 0 {
        assert(!pred(s[0]));
        let t = s.drop_first();
        assert forall|j: int| 0 <= j < k - 1 implies !pred(#[trigger] t[j]) by {
            assert(t[j] == s[j + 1]);
        }
        lemma_index_where_unique(t, pred, k - 1);
    }
}

/// Separates the words of a title (anything but letters and digits).
pub open spec fn not_alphanumeric() -> spec_fn(char) -> bool {
    |c: char| !alphanumeric(c)
}

/// The words of `v`, split at every character that is not alphanumeric.
fn split_words(v: &Vec<char>) -> (r: Vec<Vec<char>>)
    ensures
        crate::paths::views(r@) == split_where(v@, not_alphanumeric()),
{
    let ghost pred = not_alphanumeric();
    let mut out: Vec<Vec<char>> = Vec::new();
    let mut start: usize = 0;
    assert(v@.skip(0) == v@);
    loop
        invariant
            start <= v@.len(),
            pred == not_alphanumeric(),
            crate::paths::views(out@) + split_where(v@.skip(start as int), pred) == split_where(
                v@,
                pred,
            ),
        decreases v@.len() - start,
    {
        let mut k: usize = start;
        while k < v.len() && is_alphanumeric(v[k])
            invariant
                start <= k <= v@.len(),
                pred == not_alphanumeric(),
                forall|j: int| start <= j < k ==> !pred(#[trigger] v@[j]),
            decreases v.len() - k,
        {
            k = k + 1;
        }
        let ghost rest = v@.skip(start as int);
        proof {
            assert forall|j: int| 0 <= j < k - start implies !pred(#[trigger] rest[j]) by {
                assert(rest[j] == v@[j + start]);
            }
            if k < v@.len() {
                assert(rest[k - start] == v@[k as int]);
            }
            lemma_index_where_unique(rest, pred, k - start);
            assert(rest.take(k - start) == v@.subrange(start as int, k as int));
        }
        let piece = chars_take(v, start, k);
        let ghost before = out@;
        out.push(piece);
        assert(crate::paths::views(out@) == crate::paths::views(before).push(piece@));
        if k >= v.len() {
            assert(rest.take(k - start) == rest);
            return out;
        }
        proof {
            assert(rest.skip(k - start + 1) == v@.skip(k + 1));
            assert(split_where(rest, pred) == seq![piece@] + split_where(v@.skip(k + 1), pred));
            assert(crate::paths::views(out@) + split_where(v@.skip(k + 1), pred) == crate::paths::views(before) + (seq![piece@]
                + split_where(v@.skip(k + 1), pred)));
        }
        start = k + 1;
    }
}

/// Common words that say nothing about which code a task touches.
pub open spec fn is_stop_word(w: Seq<char>) -> bool {
    ||| w == "задача"@
    ||| w == "сделать"@
    ||| w == "исправить"@
    ||| w == "добавить"@
    ||| w == "проверить"@
    ||| w == "пожалуйста"@
    ||| w == "нужно"@
    ||| w == "можем"@
    ||| w == "работает"@
    ||| w == "работать"@
    ||| w == "проект"@
    ||| w == "проекта"@
    ||| w == "через"@
    ||| w == "чтобы"@
    ||| w == "этого"@
    ||| w == "этот"@
    ||| w == "также"@
    ||| w == "когда"@
    ||| w == "который"@
    ||| w == "this"@
    ||| w == "that"@
    ||| w == "with"@
    ||| w == "from"@
    ||| w == "into"@
    ||| w == "task"@
    ||| w == "project"@
    ||| w == "fix"@
    ||| w == "add"@
    ||| w == "update"@
}

fn stop_word(w: &Vec<char>) -> (r: bool)
    ensures
        r == is_stop_word(w@),
{
    chars_is(w, "задача") || chars_is(w, "сделать") || chars_is(w, "исправить") || chars_is(
        w,
        "добавить",
    ) || chars_is(w, "проверить") || chars_is(w, "пожалуйста") || chars_is(w, "нужно")
        || chars_is(w, "можем") || chars_is(w, "работает") || chars_is(w, "работать") || chars_is(
        w,
        "проект",
    ) || chars_is(w, "проекта") || chars_is(w, "через") || chars_is(w, "чтобы") || chars_is(
        w,
        "этого",
    ) || chars_is(w, "этот") || chars_is(w, "также") || chars_is(w, "когда") || chars_is(
        w,
        "который",
    ) || chars_is(w, "this") || chars_is(w, "that") || chars_is(w, "with") || chars_is(w, "from")
        || chars_is(w, "into") || chars_is(w, "task") || chars_is(w, "project") || chars_is(w, "fix")
        || chars_is(w, "add") || chars_is(w, "update")
}

/// The most search terms taken from a task title.
pub open spec fn max_query_terms() -> nat {
    12
}

/// The search terms of a list of title words: each word lowercased, kept when
/// it has at least four characters, is not a stop word and was not kept
/// before, up to twelve terms, in order.
pub open spec fn query_terms(words: Seq<Seq<char>>) -> Seq<Seq<char>>
    decreases words.len(),
{
    if words.len() == 0 {
        Seq::empty()
    } else {
        let prev = query_terms(words.drop_last());
        let t = lowercase(words.last());
        if prev.len() >= max_query_terms() || t.len() < 4 || is_stop_word(t) || prev.contains(t) {
            prev
        } else {
            prev.push(t)
        }
    }
}

/// The views of a list of strings.
pub open spec fn string_views(v: Seq<String>) -> Seq<Seq<char>> {
    v.map_values(|x: String| x@)
}

/// What the local Git context of a task searches for.
pub struct LocalGitTaskQuery {
    /// The task id, lowercased.
    pub task_id: String,
    pub terms: Vec<String>,
}

/// The search terms of a task: the words of its compact title
/// (`spec_compact_task_title`), filtered as `query_terms` says.
pub open spec fn spec_task_terms(description: Seq<char>) -> Seq<Seq<char>> {
    query_terms(split_where(spec_compact_task_title(description), not_alphanumeric()))
}

fn string_views_contains(v: &Vec<String>, t: &Vec<char>) -> (r: bool)
    ensures
        r == string_views(v@).contains(t@),
{
    let mut i: usize = 0;
    while i < v.len()
        invariant
            i <= v@.len(),
            forall|j: int| 0 <= j < i ==> v@[j]@ != t@,
        decreases v.len() - i,
    {
        let c = chars_of(v[i].as_str());
        if crate::paths::chars_eq(&c, t) {
            assert(string_views(v@)[i as int] == t@);
            return true;
        }
        i = i + 1;
    }
    proof {
        if string_views(v@).contains(t@) {
            let j = choose|j: int| 0 <= j < string_views(v@).len() && string_views(v@)[j] == t@;
            assert(v@[j]@ == t@);
        }
    }
    false
}

/// What the local Git context of a task looks for: the lowercased task id and
/// up to twelve distinct lowercased words of at least four characters from its
/// title, stop words left out.
pub fn local_git_task_query(task_id: &str, description: &str) -> (r: LocalGitTaskQuery)
    ensures
        r.task_id@ == lowercase(task_id@),
        string_views(r.terms@) == spec_task_terms(description@),
{
    let title = compact_task_title(description);
    let title_chars = chars_of(title.as_str());
    let words = split_words(&title_chars);
    let ghost ws = crate::paths::views(words@);
    let mut terms: Vec<String> = Vec::new();
    let mut i: usize = 0;
    while i < words.len()
        invariant
            i <= words@.len(),
            ws == crate::paths::views(words@),
            string_views(terms@) == query_terms(ws.take(i as int)),
        decreases words.len() - i,
    {
        assert(ws.take(i as int + 1).drop_last() == ws.take(i as int));
        assert(ws.take(i as int + 1).last() == words@[i as int]@);
        if terms.len() >= 12 {
            i = i + 1;
            continue;
        }
        let word = string_of(&words[i]);
        let lower = to_lowercase(word.as_str());
        let t = chars_of(lower.as_str());
        if t.len() < 4 || stop_word(&t) || string_views_contains(&terms, &t) {
            i = i + 1;
            continue;
        }
        let ghost before = terms@;
        terms.push(lower);
        assert(string_views(terms@) == string_views(before).push(t@));
        i = i + 1;
    }
    assert(ws.take(words@.len() as int) == ws);
    LocalGitTaskQuery { task_id: to_lowercase(task_id), terms }
}

/// The reason reported for a matched search term: `term:` and the term.
pub open spec fn term_reason(term: Seq<char>) -> Seq<char> {
    "term:"@ + term
}

/// The most reasons reported for one matched text.
pub open spec fn max_match_reasons() -> nat {
    4
}

/// The reasons added by the terms, in order, to the reasons already found,
/// while fewer than four are found.
pub open spec fn term_reasons(lower: Seq<char>, terms: Seq<Seq<char>>, found: Seq<Seq<char>>) -> Seq<Seq<char>>
    decreases terms.len(),
{
    if terms.len() == 0 {
        found
    } else {
        let prev = term_reasons(lower, terms.drop_last(), found);
        if prev.len() < max_match_reasons() && seq_contains(lower, terms.last()) {
            prev.push(term_reason(terms.last()))
        } else {
            prev
        }
    }
}

/// What `git_text_match_reasons` returns: `task_id` when the lowercased text
/// holds the (non-empty) task id, then `term:<term>` for each term it holds,
/// at most four reasons in all.
pub open spec fn spec_git_text_match_reasons(text: Seq<char>, task_id: Seq<char>, terms: Seq<
    Seq<char>,
>) -> Seq<Seq<char>> {
    let lower = lowercase(text);
    let found = if task_id.len() > 0 && seq_contains(lower, task_id) {
        seq!["task_id"@]
    } else {
        Seq::empty()
    };
    term_reasons(lower, terms, found)
}

/// Why a text (commit subject, path, line or diff) relates to the task: the
/// task id and the task's terms that the lowercased text contains.
pub fn git_text_match_reasons(text: &str, query: &LocalGitTaskQuery) -> (r: Vec<String>)
    ensures
        string_views(r@) == spec_git_text_match_reasons(
            text@,
            query.task_id@,
            string_views(query.terms@),
        ),
{
    let lower_s = to_lowercase(text);
    let lower = chars_of(lower_s.as_str());
    let id = chars_of(query.task_id.as_str());
    let mut reasons: Vec<String> = Vec::new();
    if id.len() > 0 && chars_contains(&lower, &id) {
        reasons.push(String::from_str("task_id"));
        assert(string_views(reasons@) == seq!["task_id"@]);
    } else {
        assert(string_views(reasons@) == Seq::<Seq<char>>::empty());
    }
    let ghost found = string_views(reasons@);
    let ghost ts = string_views(query.terms@);
    let mut i: usize = 0;
    while i < query.terms.len()
        invariant
            i <= query.terms@.len(),
            ts == string_views(query.terms@),
            lower@ == lowercase(text@),
            string_views(reasons@) == term_reasons(lower@, ts.take(i as int), found),
            reasons@.len() <= 4,
        decreases query.terms.len() - i,
    {
        assert(ts.take(i as int + 1).drop_last() == ts.take(i as int));
        assert(ts.take(i as int + 1).last() == query.terms@[i as int]@);
        if reasons.len() < 4 {
            let term = chars_of(query.terms[i].as_str());
            if chars_contains(&lower, &term) {
                let mut reason = String::from_str("term:");
                reason.append(query.terms[i].as_str());
                let ghost before = reasons@;
                reasons.push(reason);
                assert(string_views(reasons@) == string_views(before).push(term_reason(term@)));
            }
        }
        i = i + 1;
    }
    assert(ts.take(query.terms@.len() as int) == ts);
    reasons
}

/// Whether `c` is a carriage return or a line feed.
pub open spec fn is_cr_lf(c: char) -> bool {
    c == '\r' || c == '\n'
}

/// `s` without carriage returns and line feeds at either end
/// (`trim_matches(['\r', '\n'])`).
pub open spec fn trim_cr_lf(s: Seq<char>) -> Seq<char>
    decreases s.len(),
{
    if s.len() > 0 && is_cr_lf(s[0]) {
        trim_cr_lf(s.drop_first())
    } else if s.len() > 0 && is_cr_lf(s.last()) {
        trim_cr_lf(s.drop_last())
    } else {
        s
    }
}

fn trim_cr_lf_chars(v: &Vec<char>) -> (r: Vec<char>)
    ensures
        r@ == trim_cr_lf(v@),
{
    let mut lo: usize = 0;
    let mut hi: usize = v.len();
    assert(v@.subrange(0, v@.len() as int) == v@);
    while lo < hi && (v[lo] == '\r' || v[lo] == '\n')
        invariant
            lo <= hi == v@.len(),
            trim_cr_lf(v@.subrange(lo as int, hi as int)) == trim_cr_lf(v@),
        decreases hi - lo,
    {
        assert(v@.subrange(lo as int, hi as int).drop_first() == v@.subrange(lo + 1, hi as int));
        lo = lo + 1;
    }
    while lo < hi && (v[hi - 1] == '\r' || v[hi - 1] == '\n')
        invariant
            lo <= hi <= v@.len(),
            lo < hi ==> !is_cr_lf(v@[lo as int]),
            trim_cr_lf(v@.subrange(lo as int, hi as int)) == trim_cr_lf(v@),
        decreases hi,
    {
        assert(v@.subrange(lo as int, hi as int).drop_last() == v@.subrange(lo as int, hi - 1));
        assert(v@.subrange(lo as int, hi as int)[0] == v@[lo as int]);
        hi = hi - 1;
    }
    proof {
        if lo < hi {
            assert(v@.subrange(lo as int, hi as int)[0] == v@[lo as int]);
        }
    }
    chars_take(v, lo, hi)
}

/// Field `i` of a log record, trimmed; empty when the record has fewer fields.
pub open spec fn record_field(fields: Seq<Seq<char>>, i: int) -> Seq<char> {
    if 0 <= i < fields.len() {
        trim_ws(fields[i])
    } else {
        Seq::empty()
    }
}

/// The header of one `git log --format=%H%x00%h%x00%cI%x00%s%x1e` record:
/// full hash, short hash, commit date and subject.
pub open spec fn commit_header(record: Seq<char>) -> (Seq<char>, Seq<char>, Seq<char>, Seq<char>) {
    let fields = split_on(trim_cr_lf(record), '\0');
    (record_field(fields, 0), record_field(fields, 1), record_field(fields, 2), record_field(fields, 3))
}

/// The most related commits reported.
pub open spec fn max_related_commits() -> nat {
    5
}

/// The commits among `records` whose subject relates to the task, in log
/// order, up to five; the flag says that a further related commit was left out.
pub open spec fn related_commit_scan(records: Seq<Seq<char>>, task_id: Seq<char>, terms: Seq<
    Seq<char>,
>) -> (Seq<(Seq<char>, Seq<char>, Seq<char>, Seq<char>)>, bool)
    decreases records.len(),
{
    if records.len() == 0 {
        (Seq::empty(), false)
    } else {
        let prev = related_commit_scan(records.drop_last(), task_id, terms);
        let h = commit_header(records.last());
        if prev.1 || h.0.len() == 0 || h.3.len() == 0 || spec_git_text_match_reasons(
            h.3,
            task_id,
            terms,
        ).len() == 0 {
            prev
        } else if prev.0.len() == max_related_commits() {
            (prev.0, true)
        } else {
            (prev.0.push(h), false)
        }
    }
}

/// The most files listed for one commit.
pub open spec fn max_commit_files() -> nat {
    20
}

/// The files of a commit from `git show --format= --name-only -z` output: each
/// path trimmed and scoped to the configured directory, secrets left out, up to
/// twenty, in order.
pub open spec fn commit_files(pieces: Seq<Seq<char>>, configured_prefix: Seq<char>) -> Seq<Seq<char>>
    decreases pieces.len(),
{
    if pieces.len() == 0 {
        Seq::empty()
    } else {
        let prev = commit_files(pieces.drop_last(), configured_prefix);
        if prev.len() >= max_commit_files() {
            prev
        } else {
            match spec_scope_repository_relative_path(trim_ws(pieces.last()), configured_prefix) {
                Some(p) => if spec_path_looks_secret(p) {
                    prev
                } else {
                    prev.push(p)
                },
                None => prev,
            }
        }
    }
}

/// A commit whose subject relates to the task.
pub struct LocalGitCommit {
    pub sha: String,
    pub short_sha: String,
    pub subject: String,
    pub committed_at: Option<String>,
    pub files: Vec<String>,
    pub match_reasons: Vec<String>,
}

/// The values a related commit reports.
pub open spec fn commit_view(c: LocalGitCommit) -> (Seq<char>, Seq<char>, Seq<char>, Option<Seq<char>>, Seq<Seq<char>>, Seq<Seq<char>>) {
    (c.sha@, c.short_sha@, c.subject@, opt_view(c.committed_at), string_views(c.files@), string_views(c.match_reasons@))
}

/// The related commits of a `git log` output: the shas of the commits that
/// `collect_related_git_commits` reports, in order, and whether more were left out.
pub open spec fn spec_related_commits(log: Seq<char>, task_id: Seq<char>, terms: Seq<Seq<char>>) -> (Seq<(Seq<char>, Seq<char>, Seq<char>, Seq<char>)>, bool) {
    related_commit_scan(split_on(log, '\u{1e}'), task_id, terms)
}

/// The output of `git show` for the `k`-th reported commit; empty when missing.
pub open spec fn show_output(shows: Seq<Seq<char>>, k: int) -> Seq<char> {
    if 0 <= k < shows.len() {
        shows[k]
    } else {
        Seq::empty()
    }
}

/// What `collect_related_git_commits` reports for the `k`-th related commit.
pub open spec fn spec_related_commit(
    h: (Seq<char>, Seq<char>, Seq<char>, Seq<char>),
    show: Seq<char>,
    configured_prefix: Seq<char>,
    task_id: Seq<char>,
    terms: Seq<Seq<char>>,
) -> (Seq<char>, Seq<char>, Seq<char>, Option<Seq<char>>, Seq<Seq<char>>, Seq<Seq<char>>) {
    (
        h.0,
        h.1,
        spec_truncate_preserving_layout(h.3, 300),
        if h.2.len() > 0 { Some(h.2) } else { None },
        commit_files(split_on(show, '\0'), configured_prefix),
        spec_git_text_match_reasons(h.3, task_id, terms),
    )
}

fn record_field_exec(fields: &Vec<Vec<char>>, i: usize) -> (r: Vec<char>)
    ensures
        r@ == record_field(views(fields@), i as int),
{
    if i < fields.len() {
        trim_chars(&fields[i])
    } else {
        Vec::new()
    }
}

fn commit_header_exec(record: &Vec<char>) -> (r: (Vec<char>, Vec<char>, Vec<char>, Vec<char>))
    ensures
        (r.0@, r.1@, r.2@, r.3@) == commit_header(record@),
{
    let trimmed = trim_cr_lf_chars(record);
    let fields = split_chars(&trimmed, '\0');
    (record_field_exec(&fields, 0), record_field_exec(&fields, 1), record_field_exec(&fields, 2), record_field_exec(&fields, 3))
}

/// The files that a commit touched, from `git show --format= --name-only -z`.
fn commit_files_exec(show: &str, configured_prefix: &str) -> (r: Vec<String>)
    ensures
        string_views(r@) == commit_files(split_on(show@, '\0'), configured_prefix@),
{
    let chars = chars_of(show);
    let pieces = split_chars(&chars, '\0');
    let ghost ps = views(pieces@);
    let mut out: Vec<String> = Vec::new();
    let mut i: usize = 0;
    while i < pieces.len()
        invariant
            i <= pieces@.len(),
            ps == views(pieces@),
            ps == split_on(show@, '\0'),
            string_views(out@) == commit_files(ps.take(i as int), configured_prefix@),
        decreases pieces.len() - i,
    {
        assert(ps.take(i as int + 1).drop_last() == ps.take(i as int));
        assert(ps.take(i as int + 1).last() == pieces@[i as int]@);
        if out.len() < 20 {
            let trimmed = trim_chars(&pieces[i]);
            let t = string_of(&trimmed);
            match scope_repository_relative_path(t.as_str(), configured_prefix) {
                Some(p) => {
                    if !resource_path_looks_secret(p.as_str()) {
                        let ghost before = out@;
                        out.push(p);
                        assert(string_views(out@) == string_views(before).push(p@));
                    }
                },
                None => {},
            }
        }
        i = i + 1;
    }
    assert(ps.take(pieces@.len() as int) == ps);
    out
}

/// The full hashes of the commits of a `git log -16
/// --format=%H%x00%h%x00%cI%x00%s%x1e` output that relate to the task, in the
/// order `collect_related_git_commits` reports them; `git show` is asked for
/// their files in that order.
pub fn related_commit_shas(log: &str, query: &LocalGitTaskQuery) -> (r: Vec<String>)
    ensures
        string_views(r@) == spec_related_commits(log@, query.task_id@, string_views(query.terms@)).0.map_values(
            |h: (Seq<char>, Seq<char>, Seq<char>, Seq<char>)| h.0,
        ),
{
    let (headers, _) = scan_related_commits(log, query);
    let mut out: Vec<String> = Vec::new();
    let mut i: usize = 0;
    let ghost sel = spec_related_commits(log@, query.task_id@, string_views(query.terms@)).0;
    while i < headers.len()
        invariant
            i <= headers@.len(),
            headers@.len() == sel.len(),
            forall|j: int| 0 <= j < headers@.len() ==> (#[trigger] headers@[j]).0@ == sel[j].0,
            string_views(out@) == sel.take(i as int).map_values(
                |h: (Seq<char>, Seq<char>, Seq<char>, Seq<char>)| h.0,
            ),
        decreases headers.len() - i,
    {
        let ghost before = out@;
        out.push(string_of(&headers[i].0));
        assert(string_views(out@) == string_views(before).push(sel[i as int].0));
        assert(sel.take(i as int + 1) == sel.take(i as int).push(sel[i as int]));
        i = i + 1;
    }
    assert(sel.take(sel.len() as int) == sel);
    out
}

/// The headers of the related commits of a log, and whether more were left out.
fn scan_related_commits(log: &str, query: &LocalGitTaskQuery) -> (r: (Vec<(Vec<char>, Vec<char>, Vec<char>, Vec<char>)>, bool))
    ensures
        r.0@.len() == spec_related_commits(log@, query.task_id@, string_views(query.terms@)).0.len(),
        r.1 == spec_related_commits(log@, query.task_id@, string_views(query.terms@)).1,
        forall|j: int| 0 <= j < r.0@.len() ==> {
            let h = #[trigger] r.0@[j];
            (h.0@, h.1@, h.2@, h.3@) == spec_related_commits(log@, query.task_id@, string_views(query.terms@)).0[j]
        },
{
    let chars = chars_of(log);
    let records = split_chars(&chars, '\u{1e}');
    let ghost rs = views(records@);
    let ghost tid = query.task_id@;
    let ghost terms = string_views(query.terms@);
    let mut out: Vec<(Vec<char>, Vec<char>, Vec<char>, Vec<char>)> = Vec::new();
    let mut truncated = false;
    let mut i: usize = 0;
    while i < records.len()
        invariant
            i <= records@.len(),
            rs == views(records@),
            rs == split_on(log@, '\u{1e}'),
            tid == query.task_id@,
            terms == string_views(query.terms@),
            out@.len() == related_commit_scan(rs.take(i as int), tid, terms).0.len(),
            truncated == related_commit_scan(rs.take(i as int), tid, terms).1,
            forall|j: int| 0 <= j < out@.len() ==> {
                let h = #[trigger] out@[j];
                (h.0@, h.1@, h.2@, h.3@) == related_commit_scan(rs.take(i as int), tid, terms).0[j]
            },
        decreases records.len() - i,
    {
        assert(rs.take(i as int + 1).drop_last() == rs.take(i as int));
        assert(rs.take(i as int + 1).last() == records@[i as int]@);
        if truncated {
            i = i + 1;
            continue;
        }
        let h = commit_header_exec(&records[i]);
        if h.0.len() == 0 || h.3.len() == 0 {
            i = i + 1;
            continue;
        }
        let subject = string_of(&h.3);
        let reasons = git_text_match_reasons(subject.as_str(), query);
        if reasons.len() == 0 {
            i = i + 1;
            continue;
        }
        if out.len() == 5 {
            truncated = true;
            i = i + 1;
            continue;
        }
        let ghost before = out@;
        out.push(h);
        assert forall|j: int| 0 <= j < out@.len() implies {
            let h = #[trigger] out@[j];
            (h.0@, h.1@, h.2@, h.3@) == related_commit_scan(rs.take(i as int + 1), tid, terms).0[j]
        } by {
            if j < before.len() {
                assert(out@[j] == before[j]);
            }
        }
        i = i + 1;
    }
    assert(rs.take(records@.len() as int) == rs);
    (out, truncated)
}

/// The commits among the last sixteen (the `log` output of `git log -16
/// --format=%H%x00%h%x00%cI%x00%s%x1e -- .`, `None` when Git failed) whose
/// subject relates to the task, up to five, with the files each touched;
/// `shows[k]` is the `git show --format= --name-only -z <sha> -- .` output for
/// the `k`-th of `related_commit_shas` (empty when missing). The flag says that
/// a further related commit was left out.
pub fn collect_related_git_commits(
    log: Option<&str>,
    shows: &Vec<String>,
    configured_prefix: &str,
    query: &LocalGitTaskQuery,
) -> (r: (Vec<LocalGitCommit>, bool))
    ensures
        match log {
            None => r.0@.len() == 0 && !r.1,
            Some(log) => {
                let sel = spec_related_commits(log@, query.task_id@, string_views(query.terms@));
                &&& r.1 == sel.1
                &&& r.0@.len() == sel.0.len()
                &&& forall|k: int|
                    0 <= k < r.0@.len() ==> commit_view(#[trigger] r.0@[k]) == spec_related_commit(
                        sel.0[k],
                        show_output(string_views(shows@), k),
                        configured_prefix@,
                        query.task_id@,
                        string_views(query.terms@),
                    )
            },
        },
{
    let log = match log {
        Some(log) => log,
        None => return (Vec::new(), false),
    };
    let (headers, truncated) = scan_related_commits(log, query);
    let ghost sel = spec_related_commits(log@, query.task_id@, string_views(query.terms@));
    let mut commits: Vec<LocalGitCommit> = Vec::new();
    let mut k: usize = 0;
    while k < headers.len()
        invariant
            k <= headers@.len(),
            headers@.len() == sel.0.len(),
            sel == spec_related_commits(log@, query.task_id@, string_views(query.terms@)),
            forall|j: int| 0 <= j < headers@.len() ==> {
                let h = #[trigger] headers@[j];
                (h.0@, h.1@, h.2@, h.3@) == sel.0[j]
            },
            commits@.len() == k,
            forall|j: int|
                0 <= j < k ==> commit_view(#[trigger] commits@[j]) == spec_related_commit(
                    sel.0[j],
                    show_output(string_views(shows@), j),
                    configured_prefix@,
                    query.task_id@,
                    string_views(query.terms@),
                ),
        decreases headers.len() - k,
    {
        let h = &headers[k];
        let subject = string_of(&h.3);
        let reasons = git_text_match_reasons(subject.as_str(), query);
        let empty = String::new();
        let show: &str = if k < shows.len() {
            shows[k].as_str()
        } else {
            empty.as_str()
        };
        assert(show@ == show_output(string_views(shows@), k as int));
        let files = commit_files_exec(show, configured_prefix);
        let committed_at = if h.2.len() > 0 {
            Some(string_of(&h.2))
        } else {
            None
        };
        let commit = LocalGitCommit {
            sha: string_of(&h.0),
            short_sha: string_of(&h.1),
            subject: truncate_preserving_layout(subject.as_str(), 300),
            committed_at,
            files,
            match_reasons: reasons,
        };
        proof {
            let hv = sel.0[k as int];
            assert((h.0@, h.1@, h.2@, h.3@) == hv);
            assert(commit_view(commit).0 == hv.0);
            assert(commit_view(commit).2 == spec_truncate_preserving_layout(hv.3, 300));
            assert(commit_view(commit).3 == (if hv.2.len() > 0 { Some(hv.2) } else { None::<Seq<char>> }));
            assert(commit_view(commit).5 == spec_git_text_match_reasons(hv.3, query.task_id@, string_views(query.terms@)));
            assert(commit_view(commit).4 == commit_files(split_on(show_output(string_views(shows@), k as int), '\0'), configured_prefix@));
        }
        let ghost before = commits@;
        commits.push(commit);
        assert forall|j: int|
            0 <= j < k + 1 implies commit_view(#[trigger] commits@[j]) == spec_related_commit(
                sel.0[j],
                show_output(string_views(shows@), j),
                configured_prefix@,
                query.task_id@,
                string_views(query.terms@),
            ) by {
            if j < k {
                assert(commits@[j] == before[j]);
            }
        }
        k = k + 1;
    }
    (commits, truncated)
}

} // verus!

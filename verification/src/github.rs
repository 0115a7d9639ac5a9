use vstd::prelude::*;

use crate::chars::{chars_of, string_of};
use crate::decimal::{decimal_digits, parse_u64, spec_parse_u64, to_decimal_u64};
use crate::git::{index_where, lemma_index_where_unique};
use crate::paths::{
    ascii_lower_chars, ascii_lower_seq, chars_ends_with, chars_eq, chars_is, ends_with, split_chars,
    split_on, views,
};
use crate::text::{chars_take, is_whitespace, is_ws, push_chars, push_str_chars};

verus! {

/// What a GitHub link points at.
#[derive(PartialEq, Eq, Structural, Clone, Copy, Debug)]
pub enum GitHubWorkItemKind {
    Issue,
    PullRequest,
}

/// The path segment of a kind in a GitHub URL.
pub open spec fn kind_segment(k: GitHubWorkItemKind) -> Seq<char> {
    match k {
        GitHubWorkItemKind::Issue => "issues"@,
        GitHubWorkItemKind::PullRequest => "pull"@,
    }
}

/// A link to a GitHub issue or pull request found in text.
pub struct GitHubReferenceCandidate {
    /// `owner/name`, as written, without a `.git` suffix.
    pub repository: String,
    pub kind: GitHubWorkItemKind,
    pub number: u64,
    /// The link in its canonical form.
    pub url: String,
}

pub type CandidateView = (Seq<char>, GitHubWorkItemKind, u64, Seq<char>);

pub open spec fn candidate_view(c: GitHubReferenceCandidate) -> CandidateView {
    (c.repository@, c.kind, c.number, c.url@)
}

pub open spec fn candidate_views(s: Seq<GitHubReferenceCandidate>) -> Seq<CandidateView> {
    s.map_values(|c: GitHubReferenceCandidate| candidate_view(c))
}

pub open spec fn github_prefix() -> Seq<char> {
    "https://github.com/"@
}

/// Whether `p` occurs in `t` at `i`.
pub open spec fn occurs_at(t: Seq<char>, p: Seq<char>, i: int) -> bool {
    0 <= i && i + p.len() <= t.len() && t.subrange(i, i + p.len()) == p
}

/// The first place at or after `o` where `p` occurs in `t`, or -1.
#[verifier::opaque]
pub open spec fn next_occurrence(t: Seq<char>, p: Seq<char>, o: int) -> int {
    if exists|i: int| o <= i && occurs_at(t, p, i) {
        choose|i: int| o <= i && occurs_at(t, p, i) && forall|j: int| o <= j < i ==> !occurs_at(t, p, j)
    } else {
        -1
    }
}

/// What ends a link in text: white space, angle brackets and quotes.
pub open spec fn ends_link() -> spec_fn(char) -> bool {
    |c: char| is_ws(c) || c == '<' || c == '>' || c == '"' || c == '\''
}

/// Punctuation that a sentence puts after a link.
pub open spec fn trailing_punct(c: char) -> bool {
    c == '.' || c == ',' || c == ';' || c == ':' || c == '!' || c == '?' || c == ')' || c == ']'
        || c == '}'
}

/// `s` without the punctuation at its end (`str::trim_end_matches`).
pub open spec fn trim_end_punct(s: Seq<char>) -> Seq<char>
    decreases s.len(),
{
    if s.len() > 0 && trailing_punct(s.last()) {
        trim_end_punct(s.drop_last())
    } else {
        s
    }
}

/// `s` without any number of `.git` at its end.
pub open spec fn trim_git_suffix(s: Seq<char>) -> Seq<char>
    decreases s.len(),
{
    if s.len() >= 4 && ends_with(s, ".git"@) {
        trim_git_suffix(s.take(s.len() - 4))
    } else {
        s
    }
}

/// Ends the number of a link: its query or fragment.
pub open spec fn query_or_fragment() -> spec_fn(char) -> bool {
    |c: char| c == '?' || c == '#'
}

/// Where the link that starts `rest` ends: at the first delimiter after its
/// first character.
pub open spec fn link_end(rest: Seq<char>) -> int {
    1 + index_where(rest.drop_first(), ends_link())
}

/// The reference that a link names, if it is `owner/name/issues/N` or
/// `owner/name/pull/N` with a positive `N`.
#[verifier::opaque]
pub open spec fn link_candidate(raw: Seq<char>) -> Option<CandidateView> {
    let path = if raw.len() >= github_prefix().len() && raw.take(github_prefix().len() as int)
        == github_prefix() {
        raw.skip(github_prefix().len() as int)
    } else {
        Seq::empty()
    };
    let parts = split_on(path, '/');
    if parts.len() < 4 {
        None
    } else {
        let repository = parts[0] + "/"@ + trim_git_suffix(parts[1]);
        let kind = if parts[2] == "issues"@ {
            Some(GitHubWorkItemKind::Issue)
        } else if parts[2] == "pull"@ {
            Some(GitHubWorkItemKind::PullRequest)
        } else {
            None
        };
        let number_text = parts[3].take(index_where(parts[3], query_or_fragment()));
        match (kind, spec_parse_u64(number_text)) {
            (Some(k), Some(n)) => if n == 0 {
                None
            } else {
                Some(
                    (
                        repository,
                        k,
                        n,
                        github_prefix() + repository + "/"@ + kind_segment(k) + "/"@
                            + decimal_digits(n as nat),
                    ),
                )
            },
            _ => None,
        }
    }
}

/// The reference named by the link at `k` of `t`, if any, and where the
/// search for the next link resumes.
pub open spec fn link_at(t: Seq<char>, k: int) -> (Option<CandidateView>, int) {
    let rest = t.skip(k);
    let end = link_end(rest);
    let raw = trim_end_punct(rest.take(end));
    (link_candidate(raw), k + if end > github_prefix().len() { end } else { github_prefix().len() as int })
}

/// The references that the links of `t` from `o` on name, in order.
#[verifier::opaque]
pub open spec fn scan_links(t: Seq<char>, o: int) -> Seq<CandidateView>
    decreases t.len() - o,
    when 0 <= o <= t.len()
{
    let k = next_occurrence(t, github_prefix(), o);
    if k < 0 {
        Seq::empty()
    } else {
        let (cand, next) = link_at(t, k);
        let tail = if o < next <= t.len() { scan_links(t, next) } else { Seq::empty() };
        match cand {
            Some(c) => seq![c] + tail,
            None => tail,
        }
    }
}

/// The first place at or after `o` where `p` occurs in `t`.
fn find_from(t: &Vec<char>, p: &Vec<char>, o: usize) -> (r: Option<usize>)
    requires
        o <= t@.len(),
        p@.len() > 0,
    ensures
        match r {
            Some(k) => o <= k && k as int == next_occurrence(t@, p@, o as int) && occurs_at(t@, p@, k as int),
            None => next_occurrence(t@, p@, o as int) == -1,
        },
{
    proof {
        reveal(next_occurrence);
    }
    let n = p.len();
    let len = t.len();
    if n > len {
        proof {
            reveal(next_occurrence);
            assert forall|j: int| o <= j implies !occurs_at(t@, p@, j) by {}
        }
        return None;
    }
    let mut i: usize = o;
    while i <= len - n
        invariant
            o <= i,
            len == t@.len(),
            n <= len,
            n == p@.len(),
            n > 0,
            forall|j: int| o <= j < i ==> !occurs_at(t@, p@, j),
        decreases t.len() - i,
    {
        let mut m: usize = 0;
        while m < n && t[i + m] == p[m]
            invariant
                m <= n,
                len == t@.len(),
                i + n <= len,
                n == p@.len(),
                forall|q: int| 0 <= q < m ==> t@[i + q] == p@[q],
            decreases n - m,
        {
            m = m + 1;
        }
        if m == n {
            assert(t@.subrange(i as int, i + n) == p@);
            proof {
                reveal(next_occurrence);
                assert(o <= i && occurs_at(t@, p@, i as int) && forall|j: int| o <= j < i ==> !occurs_at(t@, p@, j));
                let w = choose|w: int| o <= w && occurs_at(t@, p@, w) && forall|j: int| o <= j < w ==> !occurs_at(t@, p@, j);
                if w < i {
                } else if w > i {
                    assert(occurs_at(t@, p@, i as int));
                }
            }
            return Some(i);
        }
        assert(t@.subrange(i as int, i + n)[m as int] != p@[m as int]);
        i = i + 1;
    }
    proof {
        reveal(next_occurrence);
        assert forall|j: int| o <= j implies !occurs_at(t@, p@, j) by {
            if j >= i {
                assert(j + p@.len() > t@.len());
            }
        }
    }
    None
}

/// Where the link that starts at `k` ends, counted from `k`.
fn link_end_at(t: &Vec<char>, k: usize) -> (e: usize)
    requires
        k < t@.len(),
    ensures
        e as int == link_end(t@.skip(k as int)),
        1 <= e <= t@.len() - k,
{
    let ghost rest = t@.skip(k as int);
    let ghost tail = rest.drop_first();
    let ghost pred = ends_link();
    let len = t.len();
    let mut j: usize = k + 1;
    while j < t.len() && !(is_whitespace(t[j]) || t[j] == '<' || t[j] == '>' || t[j] == '"' || t[j] == '\'')
        invariant
            k + 1 <= j <= t@.len(),
            rest == t@.skip(k as int),
            tail == rest.drop_first(),
            pred == ends_link(),
            forall|q: int| k + 1 <= q < j ==> !pred(#[trigger] t@[q]),
        decreases t.len() - j,
    {
        j = j + 1;
    }
    proof {
        assert forall|q: int| 0 <= q < j - k - 1 implies !pred(#[trigger] tail[q]) by {
            assert(tail[q] == t@[q + k + 1]);
        }
        if j < t@.len() {
            assert(tail[j - k - 1] == t@[j as int]);
        }
        lemma_index_where_unique(tail, pred, j - k - 1);
    }
    j - k
}

/// `v` without the punctuation at its end.
fn trim_end_punct_chars(v: &Vec<char>) -> (r: Vec<char>)
    ensures
        r@ == trim_end_punct(v@),
{
    let mut n: usize = v.len();
    assert(v@.take(n as int) == v@);
    while n > 0 && (v[n - 1] == '.' || v[n - 1] == ',' || v[n - 1] == ';' || v[n - 1] == ':'
        || v[n - 1] == '!' || v[n - 1] == '?' || v[n - 1] == ')' || v[n - 1] == ']' || v[n - 1] == '}')
        invariant
            n <= v@.len(),
            trim_end_punct(v@) == trim_end_punct(v@.take(n as int)),
        decreases n,
    {
        assert(v@.take(n as int).drop_last() == v@.take(n - 1));
        assert(v@.take(n as int).last() == v@[n - 1]);
        n = n - 1;
    }
    proof {
        if n > 0 {
            assert(v@.take(n as int).last() == v@[n - 1]);
        }
    }
    chars_take(v, 0, n)
}

/// `v` without any number of `.git` at its end.
fn trim_git_suffix_chars(v: &Vec<char>) -> (r: Vec<char>)
    ensures
        r@ == trim_git_suffix(v@),
{
    let git = chars_of(".git");
    let mut n: usize = v.len();
    let mut cur = chars_take(v, 0, n);
    assert(v@.take(n as int) == v@);
    while n >= 4 && chars_ends_with(&cur, &git)
        invariant
            n <= v@.len(),
            cur@ == v@.take(n as int),
            git@ == ".git"@,
            trim_git_suffix(v@) == trim_git_suffix(cur@),
        decreases n,
    {
        n = n - 4;
        let next = chars_take(&cur, 0, n);
        assert(next@ == cur@.take(cur@.len() - 4));
        assert(next@ == v@.take(n as int));
        cur = next;
    }
    cur
}

/// The part of `v` before its first `?` or `#`.
fn before_query(v: &Vec<char>) -> (r: Vec<char>)
    ensures
        r@ == v@.take(index_where(v@, query_or_fragment())),
{
    let ghost pred = query_or_fragment();
    let mut j: usize = 0;
    while j < v.len() && v[j] != '?' && v[j] != '#'
        invariant
            j <= v@.len(),
            pred == query_or_fragment(),
            forall|q: int| 0 <= q < j ==> !pred(#[trigger] v@[q]),
        decreases v.len() - j,
    {
        j = j + 1;
    }
    proof {
        lemma_index_where_unique(v@, pred, j as int);
    }
    chars_take(v, 0, j)
}

/// The reference that a link names, if any.
fn link_candidate_of(raw: &Vec<char>) -> (r: Option<GitHubReferenceCandidate>)
    ensures
        match r {
            Some(c) => link_candidate(raw@) == Some(candidate_view(c)),
            None => link_candidate(raw@) is None,
        },
{
    proof {
        reveal(link_candidate);
    }
    let prefix = chars_of("https://github.com/");
    let path: Vec<char> = if raw.len() >= prefix.len() && chars_eq(&chars_take(raw, 0, prefix.len()), &prefix) {
        chars_take(raw, prefix.len(), raw.len())
    } else {
        Vec::new()
    };
    proof {
        assert(raw@.subrange(0, prefix@.len() as int) == raw@.take(prefix@.len() as int));
        assert(raw@.subrange(prefix@.len() as int, raw@.len() as int) == raw@.skip(prefix@.len() as int));
    }
    let parts = split_chars(&path, '/');
    if parts.len() < 4 {
        return None;
    }
    assert(views(parts@)[0] == parts@[0]@ && views(parts@)[1] == parts@[1]@);
    assert(views(parts@)[2] == parts@[2]@ && views(parts@)[3] == parts@[3]@);
    let name = trim_git_suffix_chars(&parts[1]);
    let mut repo: Vec<char> = Vec::new();
    push_chars(&mut repo, &parts[0]);
    push_str_chars(&mut repo, "/");
    push_chars(&mut repo, &name);
    let kind = if chars_is(&parts[2], "issues") {
        GitHubWorkItemKind::Issue
    } else if chars_is(&parts[2], "pull") {
        GitHubWorkItemKind::PullRequest
    } else {
        return None;
    };
    let number_text = before_query(&parts[3]);
    let number = match parse_u64(&number_text) {
        Some(n) => n,
        None => return None,
    };
    if number == 0 {
        return None;
    }
    let mut url: Vec<char> = Vec::new();
    push_chars(&mut url, &prefix);
    push_chars(&mut url, &repo);
    push_str_chars(&mut url, "/");
    match kind {
        GitHubWorkItemKind::Issue => push_str_chars(&mut url, "issues"),
        GitHubWorkItemKind::PullRequest => push_str_chars(&mut url, "pull"),
    }
    push_str_chars(&mut url, "/");
    let digits = to_decimal_u64(number);
    push_chars(&mut url, &digits);
    Some(GitHubReferenceCandidate { repository: string_of(&repo), kind, number, url: string_of(&url) })
}

proof fn lemma_scan_step(t: Seq<char>, o: int, k: int)
    requires
        0 <= o <= k,
        k == next_occurrence(t, github_prefix(), o),
        o < link_at(t, k).1 <= t.len(),
    ensures
        scan_links(t, o) == match link_at(t, k).0 {
            Some(c) => seq![c] + scan_links(t, link_at(t, k).1),
            None => scan_links(t, link_at(t, k).1),
        },
{
    reveal_with_fuel(scan_links, 1);
}

/// The links to GitHub issues and pull requests in `text`, in order: each
/// `https://github.com/owner/name/issues/N` or `.../pull/N` link, up to white
/// space, an angle bracket or a quote, without the punctuation after it.
pub fn github_reference_candidates(text: &str) -> (r: Vec<GitHubReferenceCandidate>)
    ensures
        candidate_views(r@) == scan_links(text@, 0),
{
    let t = chars_of(text);
    let prefix = chars_of("https://github.com/");
    proof {
        reveal_strlit("https://github.com/");
    }
    assert(prefix@.len() == 19);
    let mut out: Vec<GitHubReferenceCandidate> = Vec::new();
    let mut o: usize = 0;
    let len = t.len();
    loop
        invariant
            o <= t@.len(),
            len == t@.len(),
            t@ == text@,
            prefix@ == github_prefix(),
            prefix@.len() == 19,
            candidate_views(out@) + scan_links(t@, o as int) == scan_links(t@, 0),
        decreases t@.len() - o,
    {
        match find_from(&t, &prefix, o) {
            None => {
                proof {
                    reveal_with_fuel(scan_links, 1);
                }
                assert(scan_links(t@, o as int) == Seq::<CandidateView>::empty());
                assert(candidate_views(out@) + Seq::<CandidateView>::empty() == candidate_views(out@));
                return out;
            },
            Some(k) => {
                assert(k + 19 <= len);
                let end = link_end_at(&t, k);
                let piece = chars_take(&t, k, k + end);
                assert(piece@ == t@.skip(k as int).take(end as int));
                let raw = trim_end_punct_chars(&piece);
                let next: usize = k + if end > 19 { end } else { 19 };
                let cand = link_candidate_of(&raw);
                let ghost before = candidate_views(out@);
                let ghost tail = scan_links(t@, next as int);
                proof {
                    assert(link_at(t@, k as int) == (link_candidate(raw@), next as int));
                    lemma_scan_step(t@, o as int, k as int);
                }
                match cand {
                    Some(c) => {
                        out.push(c);
                        assert(candidate_views(out@) == before.push(candidate_view(c)));
                        assert(before + (seq![candidate_view(c)] + tail) == before.push(candidate_view(c)) + tail);
                    },
                    None => {},
                }
                o = next;
            },
        }
    }
}

/// A GitHub repository of the project that the agent may read.
pub struct AllowedRepository {
    pub resource_id: String,
    /// `owner/name` as the project's resource gives it.
    pub repository: String,
}

/// A reference of a task to an issue or pull request of one of its project's
/// repositories.
pub struct TaskGitHubReference {
    pub resource_id: String,
    pub repository: String,
    pub kind: GitHubWorkItemKind,
    pub number: u64,
    pub url: String,
}

pub type ReferenceView = (Seq<char>, Seq<char>, GitHubWorkItemKind, u64, Seq<char>);

pub open spec fn reference_views(s: Seq<TaskGitHubReference>) -> Seq<ReferenceView> {
    s.map_values(|r: TaskGitHubReference| (r.resource_id@, r.repository@, r.kind, r.number, r.url@))
}

pub open spec fn allowed_views(s: Seq<AllowedRepository>) -> Seq<(Seq<char>, Seq<char>)> {
    s.map_values(|a: AllowedRepository| (a.resource_id@, a.repository@))
}

/// The allowed repository whose name matches `key` without regard to ASCII
/// case; the last one when several do, as a map keyed by it keeps.
pub open spec fn allowed_lookup(allowed: Seq<(Seq<char>, Seq<char>)>, key: Seq<char>) -> Option<(Seq<char>, Seq<char>)>
    decreases allowed.len(),
{
    if allowed.len() == 0 {
        None
    } else if ascii_lower_seq(allowed.last().1) == key {
        Some(allowed.last())
    } else {
        allowed_lookup(allowed.drop_last(), key)
    }
}

/// Whether `refs` already holds the work item.
pub open spec fn already_referenced(refs: Seq<ReferenceView>, key: Seq<char>, kind: GitHubWorkItemKind, number: u64) -> bool {
    exists|i: int|
        0 <= i < refs.len() && ascii_lower_seq(#[trigger] refs[i].1) == key && refs[i].2 == kind && refs[i].3 == number
}

/// The task's references among the candidates, in order: those of an
/// allowed repository, each work item once, at most three.
pub open spec fn select_references(cands: Seq<CandidateView>, allowed: Seq<(Seq<char>, Seq<char>)>) -> Seq<ReferenceView>
    decreases cands.len(),
{
    if cands.len() == 0 {
        Seq::empty()
    } else {
        let prev = select_references(cands.drop_last(), allowed);
        let c = cands.last();
        let key = ascii_lower_seq(c.0);
        if prev.len() >= 3 {
            prev
        } else {
            match allowed_lookup(allowed, key) {
                None => prev,
                Some(a) => if already_referenced(prev, key, c.1, c.2) {
                    prev
                } else {
                    prev.push((a.0, a.1, c.1, c.2, c.3))
                },
            }
        }
    }
}

proof fn lemma_select_len(cands: Seq<CandidateView>, allowed: Seq<(Seq<char>, Seq<char>)>)
    ensures
        select_references(cands, allowed).len() <= 3,
        select_references(cands, allowed).len() <= select_references(cands.drop_last(), allowed).len() + 1
            || cands.len() == 0,
    decreases cands.len(),
{
    if cands.len() > 0 {
        lemma_select_len(cands.drop_last(), allowed);
    }
}

proof fn lemma_select_full(cands: Seq<CandidateView>, allowed: Seq<(Seq<char>, Seq<char>)>, n: int)
    requires
        0 <= n <= cands.len(),
        select_references(cands.take(n), allowed).len() >= 3,
    ensures
        select_references(cands, allowed) == select_references(cands.take(n), allowed),
    decreases cands.len() - n,
{
    if n < cands.len() {
        assert(cands.take(n + 1).drop_last() == cands.take(n));
        lemma_select_full(cands, allowed, n + 1);
    } else {
        assert(cands.take(n) == cands);
    }
}

/// The allowed repository matching `key`, searched from the end.
fn find_allowed(allowed: &Vec<AllowedRepository>, key: &Vec<char>) -> (r: Option<usize>)
    ensures
        match r {
            Some(k) => k < allowed@.len() && allowed_lookup(allowed_views(allowed@), key@) == Some(allowed_views(allowed@)[k as int]),
            None => allowed_lookup(allowed_views(allowed@), key@) is None,
        },
{
    let ghost v = allowed_views(allowed@);
    let mut k: usize = allowed.len();
    assert(v.take(k as int) == v);
    while k > 0
        invariant
            k <= allowed@.len(),
            v == allowed_views(allowed@),
            allowed_lookup(v, key@) == allowed_lookup(v.take(k as int), key@),
        decreases k,
    {
        k = k - 1;
        assert(v.take(k + 1).drop_last() == v.take(k as int));
        assert(v.take(k + 1).last() == v[k as int]);
        let lower = ascii_lower_chars(&chars_of(allowed[k].repository.as_str()));
        if chars_eq(&lower, key) {
            return Some(k);
        }
    }
    None
}

/// The references of a task to issues and pull requests of its project's
/// GitHub repositories: the candidates found in its texts, in order, whose
/// repository the project allows, each work item once, at most three.
pub fn select_github_references(
    candidates: &Vec<GitHubReferenceCandidate>,
    allowed: &Vec<AllowedRepository>,
) -> (r: Vec<TaskGitHubReference>)
    ensures
        reference_views(r@) == select_references(candidate_views(candidates@), allowed_views(allowed@)),
        r@.len() <= 3,
{
    let ghost cs = candidate_views(candidates@);
    let ghost al = allowed_views(allowed@);
    let mut out: Vec<TaskGitHubReference> = Vec::new();
    let mut i: usize = 0;
    while i < candidates.len()
        invariant
            i <= candidates@.len(),
            cs == candidate_views(candidates@),
            al == allowed_views(allowed@),
            reference_views(out@) == select_references(cs.take(i as int), al),
        decreases candidates.len() - i,
    {
        proof {
            lemma_select_len(cs.take(i as int), al);
        }
        if out.len() >= 3 {
            proof {
                lemma_select_full(cs, al, i as int);
            }
            return out;
        }
        assert(cs.take(i + 1).drop_last() == cs.take(i as int));
        assert(cs.take(i + 1).last() == cs[i as int]);
        let c = &candidates[i];
        let key = ascii_lower_chars(&chars_of(c.repository.as_str()));
        match find_allowed(allowed, &key) {
            None => {},
            Some(a) => {
                let ghost prev = reference_views(out@);
                let mut seen = false;
                let mut j: usize = 0;
                while j < out.len()
                    invariant
                        j <= out@.len(),
                        prev == reference_views(out@),
                        seen == exists|q: int| 0 <= q < j && ascii_lower_seq(#[trigger] prev[q].1) == key@ && prev[q].2 == c.kind && prev[q].3 == c.number,
                    decreases out.len() - j,
                {
                    let lower = ascii_lower_chars(&chars_of(out[j].repository.as_str()));
                    if chars_eq(&lower, &key) && out[j].kind == c.kind && out[j].number == c.number {
                        assert(ascii_lower_seq(prev[j as int].1) == key@);
                        seen = true;
                    }
                    j = j + 1;
                }
                if !seen {
                    out.push(TaskGitHubReference {
                        resource_id: allowed[a].resource_id.clone(),
                        repository: allowed[a].repository.clone(),
                        kind: c.kind,
                        number: c.number,
                        url: c.url.clone(),
                    });
                    assert(reference_views(out@) == prev.push((al[a as int].0, al[a as int].1, c.kind, c.number, c.url@)));
                }
            },
        }
        i = i + 1;
    }
    assert(cs.take(candidates@.len() as int) == cs);
    proof {
        lemma_select_len(cs, al);
    }
    out
}

} // verus!

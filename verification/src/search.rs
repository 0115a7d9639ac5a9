use vstd::prelude::*;

use crate::chars::{chars_of, string_of};
use crate::git::{chars_contains, index_where, lemma_index_where_unique, seq_contains, split_where};
use crate::paths::{chars_starts_with, starts_with};
use crate::text::{
    chars_take, compact_search_text, compact_task_title, is_whitespace, is_ws, join_exec, join_str,
    push_chars, push_str_chars, spec_compact_search_text, spec_compact_task_title, trim_chars, trim_ws,
};
use crate::unicode::{lowercase, to_lowercase};
use crate::vocab::{TaskStatus, Urgency};

verus! {

/// Splits text at white space.
pub open spec fn white_space() -> spec_fn(char) -> bool {
    |c: char| is_ws(c)
}

/// The pieces that are not empty, in order.
pub open spec fn nonempty_pieces(pieces: Seq<Seq<char>>) -> Seq<Seq<char>>
    decreases pieces.len(),
{
    if pieces.len() == 0 {
        Seq::empty()
    } else {
        let rest = nonempty_pieces(pieces.drop_last());
        if pieces.last().len() > 0 {
            rest.push(pieces.last())
        } else {
            rest
        }
    }
}

/// The words of `s`: its runs of characters between white space
/// (`str::split_whitespace`).
pub open spec fn words(s: Seq<char>) -> Seq<Seq<char>> {
    nonempty_pieces(split_where(s, white_space()))
}

fn split_at_ws(v: &Vec<char>) -> (r: Vec<Vec<char>>)
    ensures
        crate::paths::views(r@) == split_where(v@, white_space()),
{
    let ghost pred = white_space();
    let mut out: Vec<Vec<char>> = Vec::new();
    let mut start: usize = 0;
    assert(v@.skip(0) == v@);
    loop
        invariant
            start <= v@.len(),
            pred == white_space(),
            crate::paths::views(out@) + split_where(v@.skip(start as int), pred) == split_where(
                v@,
                pred,
            ),
        decreases v@.len() - start,
    {
        let mut k: usize = start;
        while k < v.len() && !is_whitespace(v[k])
            invariant
                start <= k <= v@.len(),
                pred == white_space(),
                forall|j: int| start <= j < k ==> !pred(#[trigger] v@[j]),
            decreases v.len() - k,
        {
            k = k + 1;
        }
        let ghost rest = v@.skip(start as int);
        proof {
            assert forall|j: int| 0 <= j < k - start implies !pred(#[trigger] rest[j]) by {
                assert(rest[j] == v@[j + start]);
            }
            if k < v@.len() {
                assert(rest[k - start] == v@[k as int]);
            }
            lemma_index_where_unique(rest, pred, k - start);
            assert(rest.take(k - start) == v@.subrange(start as int, k as int));
        }
        let piece = chars_take(v, start, k);
        let ghost before = out@;
        out.push(piece);
        assert(crate::paths::views(out@) == crate::paths::views(before).push(piece@));
        if k >= v.len() {
            assert(rest.take(k - start) == rest);
            return out;
        }
        proof {
            assert(rest.skip(k - start + 1) == v@.skip(k + 1));
            assert(split_where(rest, pred) == seq![piece@] + split_where(v@.skip(k + 1), pred));
            assert(crate::paths::views(out@) + split_where(v@.skip(k + 1), pred) == crate::paths::views(before) + (seq![piece@]
                + split_where(v@.skip(k + 1), pred)));
        }
        start = k + 1;
    }
}

/// The words of `s`, between its white space.
pub fn split_whitespace(s: &str) -> (r: Vec<String>)
    ensures
        crate::order::str_views(r@) == words(s@),
{
    let pieces = split_at_ws(&chars_of(s));
    let ghost ps = crate::paths::views(pieces@);
    let mut out: Vec<String> = Vec::new();
    let mut i: usize = 0;
    while i < pieces.len()
        invariant
            i <= pieces@.len(),
            ps == crate::paths::views(pieces@),
            crate::order::str_views(out@) == nonempty_pieces(ps.take(i as int)),
        decreases pieces.len() - i,
    {
        assert(ps.take(i + 1).drop_last() == ps.take(i as int));
        assert(ps.take(i + 1).last() == pieces@[i as int]@);
        if pieces[i].len() > 0 {
            let ghost before = out@;
            out.push(string_of(&pieces[i]));
            assert(crate::order::str_views(out@) == crate::order::str_views(before).push(pieces@[i as int]@));
        }
        i = i + 1;
    }
    assert(ps.take(pieces@.len() as int) == ps);
    out
}

pub open spec fn msg_bad_query() -> Seq<char> {
    "query должен содержать от 1 до 200 символов"@
}

/// A search query: the trimmed text, its lowercase form and the words of
/// that.
pub struct SearchQuery {
    pub query: String,
    pub lower: String,
    pub terms: Vec<String>,
}

/// The query of a task search: trimmed, between 1 and 200 characters, then
/// lowercased and split into words.
pub fn search_query(query: &str) -> (r: Result<SearchQuery, String>)
    ensures
        ({
            let t = trim_ws(query@);
            match r {
                Ok(q) => {
                    &&& 0 < t.len() <= 200
                    &&& q.query@ == t
                    &&& q.lower@ == lowercase(t)
                    &&& crate::order::str_views(q.terms@) == words(lowercase(t))
                },
                Err(e) => !(0 < t.len() <= 200) && e@ == msg_bad_query(),
            }
        }),
{
    let t = trim_chars(&chars_of(query));
    if t.len() == 0 || t.len() > 200 {
        return Err(String::from_str("query должен содержать от 1 до 200 символов"));
    }
    let trimmed = string_of(&t);
    let lower = to_lowercase(trimmed.as_str());
    let terms = split_whitespace(lower.as_str());
    Ok(SearchQuery { query: trimmed, lower, terms })
}

/// The message a task was created from, as search reads it.
pub struct TaskSource {
    pub text: String,
    pub author: Option<String>,
    pub chat_title: Option<String>,
    pub media_file_names: Vec<String>,
}

/// What task search reads of a task.
pub struct SearchableTask {
    pub id: String,
    pub project_id: String,
    pub description: String,
    pub source: Option<TaskSource>,
    pub urgency: Urgency,
    pub status: TaskStatus,
    /// RFC 3339 time of the last update.
    pub updated_at: String,
    pub version: String,
}

/// A task that matches a search, with its score.
pub struct TaskSearchHit {
    pub id: String,
    pub project_id: String,
    pub project_title: String,
    pub title: String,
    pub snippet: String,
    pub urgency: Urgency,
    pub status: TaskStatus,
    pub updated_at: String,
    pub has_source: bool,
    pub matched_fields: Vec<String>,
    pub version: String,
    pub score: u32,
}

pub open spec fn or_empty(o: Option<String>) -> Seq<char> {
    match o {
        Some(s) => s@,
        None => Seq::empty(),
    }
}

/// The text of the task's source message, or nothing.
pub open spec fn source_text(t: SearchableTask) -> Seq<char> {
    match t.source {
        Some(s) => s.text@,
        None => Seq::empty(),
    }
}

/// Author, chat title and media file names of the source, separated by spaces.
pub open spec fn source_meta(t: SearchableTask) -> Seq<char> {
    match t.source {
        Some(s) => or_empty(s.author) + " "@ + or_empty(s.chat_title) + " "@ + join_str(
            crate::order::str_views(s.media_file_names@),
            " "@,
        ),
        None => Seq::empty(),
    }
}

/// Whether some term occurs in `text`.
pub open spec fn any_term_in(text: Seq<char>, terms: Seq<Seq<char>>) -> bool {
    exists|j: int| 0 <= j < terms.len() && seq_contains(text, #[trigger] terms[j])
}

/// A field's share of the score: its weight for the whole query, a quarter
/// for a single term.
pub open spec fn field_score(text: Seq<char>, query: Seq<char>, terms: Seq<Seq<char>>, weight: int) -> int {
    if seq_contains(text, query) {
        weight
    } else if any_term_in(text, terms) {
        weight / 4
    } else {
        0
    }
}

pub open spec fn field_match(text: Seq<char>, query: Seq<char>, terms: Seq<Seq<char>>, name: Seq<char>) -> Seq<Seq<char>> {
    if seq_contains(text, query) || any_term_in(text, terms) {
        seq![name]
    } else {
        Seq::empty()
    }
}

/// The lowercased fields that search looks in: title, description, source
/// text, project title and source metadata.
pub open spec fn search_fields(t: SearchableTask, project_title: Seq<char>) -> Seq<Seq<char>> {
    seq![
        lowercase(spec_compact_task_title(t.description@)),
        lowercase(t.description@),
        lowercase(source_text(t)),
        lowercase(project_title),
        lowercase(source_meta(t)),
    ]
}

/// Whether every term occurs in some field.
pub open spec fn all_terms_found(f: Seq<Seq<char>>, terms: Seq<Seq<char>>) -> bool {
    forall|j: int|
        0 <= j < terms.len() ==> seq_contains(f[0], #[trigger] terms[j]) || seq_contains(f[1], terms[j])
            || seq_contains(f[2], terms[j]) || seq_contains(f[3], terms[j]) || seq_contains(f[4], terms[j])
}

/// The score of a match: the fields' shares, and 40 more when the title
/// starts with the query.
pub open spec fn spec_score(f: Seq<Seq<char>>, query: Seq<char>, terms: Seq<Seq<char>>) -> int {
    field_score(f[0], query, terms, 120) + field_score(f[1], query, terms, 80) + field_score(
        f[2],
        query,
        terms,
        70,
    ) + field_score(f[3], query, terms, 50) + field_score(f[4], query, terms, 40) + if starts_with(
        f[0],
        query,
    ) {
        40int
    } else {
        0int
    }
}

pub open spec fn spec_matched_fields(f: Seq<Seq<char>>, query: Seq<char>, terms: Seq<Seq<char>>) -> Seq<Seq<char>> {
    field_match(f[0], query, terms, "title"@) + field_match(f[1], query, terms, "description"@)
        + field_match(f[2], query, terms, "source"@) + field_match(f[3], query, terms, "project"@)
        + field_match(f[4], query, terms, "source_metadata"@)
}

/// The text the snippet comes from: the source when it holds the query, or
/// when only the source matched; the description otherwise.
pub open spec fn snippet_text(t: SearchableTask, f: Seq<Seq<char>>, query: Seq<char>, terms: Seq<Seq<char>>) -> Seq<char> {
    if seq_contains(f[2], query) || ((seq_contains(f[2], query) || any_term_in(f[2], terms))
        && !seq_contains(f[1], query)) {
        source_text(t)
    } else {
        t.description@
    }
}

fn any_term(text: &Vec<char>, terms: &Vec<String>) -> (r: bool)
    ensures
        r == any_term_in(text@, crate::order::str_views(terms@)),
{
    let ghost ts = crate::order::str_views(terms@);
    let mut j: usize = 0;
    while j < terms.len()
        invariant
            j <= terms@.len(),
            ts == crate::order::str_views(terms@),
            forall|k: int| 0 <= k < j ==> !seq_contains(text@, #[trigger] ts[k]),
        decreases terms.len() - j,
    {
        if chars_contains(text, &chars_of(terms[j].as_str())) {
            assert(seq_contains(text@, ts[j as int]));
            return true;
        }
        j = j + 1;
    }
    false
}

fn add_field(
    text: &Vec<char>,
    query: &Vec<char>,
    terms: &Vec<String>,
    weight: u32,
    name: &str,
    score: &mut u32,
    matched: &mut Vec<String>,
)
    requires
        weight <= 120,
        *old(score) <= 360,
    ensures
        *final(score) == *old(score) + field_score(text@, query@, crate::order::str_views(terms@), weight as int),
        crate::order::str_views(final(matched)@) == crate::order::str_views(old(matched)@) + field_match(
            text@,
            query@,
            crate::order::str_views(terms@),
            name@,
        ),
{
    if chars_contains(text, query) {
        *score = *score + weight;
        let ghost before = matched@;
        matched.push(name.to_string());
        assert(crate::order::str_views(matched@) == crate::order::str_views(before).push(name@));
    } else if any_term(text, terms) {
        *score = *score + weight / 4;
        let ghost before = matched@;
        matched.push(name.to_string());
        assert(crate::order::str_views(matched@) == crate::order::str_views(before).push(name@));
    } else {
        assert(crate::order::str_views(matched@) == crate::order::str_views(matched@) + Seq::<Seq<char>>::empty());
    }
}

fn opt_or_empty(o: &Option<String>) -> (r: Vec<char>)
    ensures
        r@ == or_empty(*o),
{
    match o {
        Some(s) => chars_of(s.as_str()),
        None => Vec::new(),
    }
}

fn clone_opt(o: &Option<TaskSource>) -> (r: bool)
    ensures
        r == o is Some,
{
    match o {
        Some(_) => true,
        None => false,
    }
}

/// Whether `term` occurs, ignoring case, in the task's title, its
/// description, its source message, its project's title or its source's
/// author, chat title and file names.
pub open spec fn term_in_task(t: SearchableTask, project_title: Seq<char>, term: Seq<char>) -> bool {
    ||| seq_contains(lowercase(spec_compact_task_title(t.description@)), term)
    ||| seq_contains(lowercase(t.description@), term)
    ||| seq_contains(lowercase(source_text(t)), term)
    ||| seq_contains(lowercase(project_title), term)
    ||| seq_contains(lowercase(source_meta(t)), term)
}

/// Law: a task is a hit of a search exactly when every term occurs in one
/// of its five fields, the project's title among them; so a task whose
/// project title holds every term is always a hit, whatever its own text.
pub proof fn lemma_hit_needs_each_term_somewhere(t: SearchableTask, project_title: Seq<char>, terms: Seq<Seq<char>>)
    ensures
        all_terms_found(search_fields(t, project_title), terms) <==> forall|j: int|
            0 <= j < terms.len() ==> term_in_task(t, project_title, #[trigger] terms[j]),
        (forall|j: int| 0 <= j < terms.len() ==> seq_contains(lowercase(project_title), #[trigger] terms[j]))
            ==> all_terms_found(search_fields(t, project_title), terms),
{
}

/// Law: a search whose query occurs only in the project's title (neither the
/// query nor any term in the task's title, description, source or source
/// metadata) matches the field `project` alone and scores 50.
pub proof fn lemma_project_only_match(t: SearchableTask, project_title: Seq<char>, query: Seq<char>, terms: Seq<Seq<char>>)
    requires
        seq_contains(lowercase(project_title), query),
        !seq_contains(lowercase(spec_compact_task_title(t.description@)), query),
        !seq_contains(lowercase(t.description@), query),
        !seq_contains(lowercase(source_text(t)), query),
        !seq_contains(lowercase(source_meta(t)), query),
        forall|j: int|
            0 <= j < terms.len() ==> !seq_contains(lowercase(spec_compact_task_title(t.description@)), #[trigger] terms[j])
                && !seq_contains(lowercase(t.description@), terms[j]) && !seq_contains(lowercase(source_text(t)), terms[j])
                && !seq_contains(lowercase(source_meta(t)), terms[j]),
        !starts_with(lowercase(spec_compact_task_title(t.description@)), query),
    ensures
        spec_score(search_fields(t, project_title), query, terms) == 50,
        spec_matched_fields(search_fields(t, project_title), query, terms) == seq!["project"@],
{
    let f = search_fields(t, project_title);
    assert(!any_term_in(f[0], terms));
    assert(!any_term_in(f[1], terms));
    assert(!any_term_in(f[2], terms));
    assert(!any_term_in(f[4], terms));
    assert(spec_matched_fields(f, query, terms) =~= seq!["project"@]);
}

/// A task's match for a search, or none when some term occurs in none of
/// its fields. `query` is the lowercased query and `terms` its words.
pub fn task_search_hit(
    task: &SearchableTask,
    project_title: &str,
    query: &str,
    terms: &Vec<String>,
) -> (r: Option<TaskSearchHit>)
    ensures
        ({
            let f = search_fields(*task, project_title@);
            let ts = crate::order::str_views(terms@);
            &&& (r is Some <==> forall|j: int| 0 <= j < ts.len() ==> term_in_task(*task, project_title@, #[trigger] ts[j]))
            &&& match r {
                None => !all_terms_found(f, ts),
                Some(h) => {
                    &&& all_terms_found(f, ts)
                    &&& h.score as int == spec_score(f, query@, ts)
                    &&& crate::order::str_views(h.matched_fields@) == spec_matched_fields(f, query@, ts)
                    &&& h.title@ == spec_compact_task_title(task.description@)
                    &&& h.snippet@ == spec_compact_search_text(snippet_text(*task, f, query@, ts), 240)
                    &&& h.id@ == task.id@
                    &&& h.project_id@ == task.project_id@
                    &&& h.project_title@ == project_title@
                    &&& h.urgency == task.urgency
                    &&& h.status == task.status
                    &&& h.updated_at@ == task.updated_at@
                    &&& h.version@ == task.version@
                    &&& h.has_source == task.source is Some
                },
            }
        }),
{
    let title = compact_task_title(task.description.as_str());
    let src_text: Vec<char> = match &task.source {
        Some(s) => chars_of(s.text.as_str()),
        None => Vec::new(),
    };
    let src_meta: Vec<char> = match &task.source {
        Some(s) => {
            let mut v = opt_or_empty(&s.author);
            push_str_chars(&mut v, " ");
            let chat = opt_or_empty(&s.chat_title);
            push_chars(&mut v, &chat);
            push_str_chars(&mut v, " ");
            let media = join_exec(&s.media_file_names, " ");
            push_chars(&mut v, &media);
            v
        },
        None => Vec::new(),
    };
    let f0 = chars_of(to_lowercase(title.as_str()).as_str());
    let f1 = chars_of(to_lowercase(task.description.as_str()).as_str());
    let f2 = chars_of(to_lowercase(string_of(&src_text).as_str()).as_str());
    let f3 = chars_of(to_lowercase(project_title).as_str());
    let f4 = chars_of(to_lowercase(string_of(&src_meta).as_str()).as_str());
    let ghost f = search_fields(*task, project_title@);
    let ghost ts = crate::order::str_views(terms@);
    assert(f0@ == f[0] && f1@ == f[1] && f2@ == f[2] && f3@ == f[3] && f4@ == f[4]);
    let mut j: usize = 0;
    while j < terms.len()
        invariant
            j <= terms@.len(),
            ts == crate::order::str_views(terms@),
            f == search_fields(*task, project_title@),
            f0@ == f[0] && f1@ == f[1] && f2@ == f[2] && f3@ == f[3] && f4@ == f[4],
            forall|k: int|
                0 <= k < j ==> seq_contains(f[0], #[trigger] ts[k]) || seq_contains(f[1], ts[k])
                    || seq_contains(f[2], ts[k]) || seq_contains(f[3], ts[k]) || seq_contains(f[4], ts[k]),
        decreases terms.len() - j,
    {
        let t = chars_of(terms[j].as_str());
        assert(t@ == ts[j as int]);
        if !chars_contains(&f0, &t) && !chars_contains(&f1, &t) && !chars_contains(&f2, &t)
            && !chars_contains(&f3, &t) && !chars_contains(&f4, &t) {
            proof {
                if all_terms_found(f, ts) {
                    assert(seq_contains(f[0], ts[j as int]) || seq_contains(f[1], ts[j as int])
                        || seq_contains(f[2], ts[j as int]) || seq_contains(f[3], ts[j as int])
                        || seq_contains(f[4], ts[j as int]));
                }
            }
            return None;
        }
        j = j + 1;
    }
    let q = chars_of(query);
    let mut score: u32 = 0;
    let mut matched: Vec<String> = Vec::new();
    add_field(&f0, &q, terms, 120, "title", &mut score, &mut matched);
    add_field(&f1, &q, terms, 80, "description", &mut score, &mut matched);
    add_field(&f2, &q, terms, 70, "source", &mut score, &mut matched);
    add_field(&f3, &q, terms, 50, "project", &mut score, &mut matched);
    add_field(&f4, &q, terms, 40, "source_metadata", &mut score, &mut matched);
    if chars_starts_with(&f0, &q) {
        score = score + 40;
    }
    let source_matched = chars_contains(&f2, &q) || any_term(&f2, terms);
    let snippet = if chars_contains(&f2, &q) || (source_matched && !chars_contains(&f1, &q)) {
        compact_search_text(string_of(&src_text).as_str(), 240)
    } else {
        compact_search_text(task.description.as_str(), 240)
    };
    Some(TaskSearchHit {
        id: task.id.clone(),
        project_id: task.project_id.clone(),
        project_title: project_title.to_string(),
        title,
        snippet,
        urgency: task.urgency,
        status: task.status,
        updated_at: task.updated_at.clone(),
        has_source: clone_opt(&task.source),
        matched_fields: matched,
        version: task.version.clone(),
        score,
    })
}

/// Whether hit `a` ranks before hit `b`: a higher score, then a later update.
pub open spec fn ranks_before(a: TaskSearchHit, b: TaskSearchHit) -> bool {
    a.score > b.score || (a.score == b.score && crate::order::seq_less(b.updated_at@, a.updated_at@))
}

/// Where a stable sort puts hit `i` among the ranked hits `s`.
pub open spec fn rank_position(hits: Seq<TaskSearchHit>, s: Seq<int>, i: int) -> int
    decreases s.len(),
{
    if s.len() == 0 {
        0
    } else if ranks_before(hits[i], hits[s.last()]) {
        rank_position(hits, s.drop_last(), i)
    } else {
        s.len() as int
    }
}

/// The first `n` hits in ranking order, hits that rank alike kept in order
/// (a stable sort).
pub open spec fn rank_order(hits: Seq<TaskSearchHit>, n: int) -> Seq<int>
    decreases n,
{
    if n <= 0 {
        Seq::empty()
    } else {
        let sorted = rank_order(hits, n - 1);
        sorted.insert(rank_position(hits, sorted, n - 1), n - 1)
    }
}

proof fn lemma_rank_order_len(hits: Seq<TaskSearchHit>, n: int)
    requires
        0 <= n,
    ensures
        rank_order(hits, n).len() == n,
    decreases n,
{
    if n > 0 {
        lemma_rank_order_len(hits, n - 1);
        lemma_rank_position_bounds(hits, rank_order(hits, n - 1), n - 1);
    }
}

proof fn lemma_rank_position_bounds(hits: Seq<TaskSearchHit>, s: Seq<int>, i: int)
    ensures
        0 <= rank_position(hits, s, i) <= s.len(),
    decreases s.len(),
{
    if s.len() > 0 {
        lemma_rank_position_bounds(hits, s.drop_last(), i);
    }
}

/// The number of hits a search returns: the requested limit (15 by default)
/// within 1..=50.
pub open spec fn search_limit(limit: Option<usize>) -> int {
    let l: int = match limit {
        Some(l) => l as int,
        None => 15,
    };
    if l < 1 {
        1
    } else if l > 50 {
        50
    } else {
        l
    }
}

/// The best hits of a search.
pub struct RankedHits {
    /// Positions of the returned hits in the input, best first.
    pub positions: Vec<usize>,
    pub total_matches: usize,
    pub truncated: bool,
}

pub open spec fn usizes(v: Seq<usize>) -> Seq<int> {
    v.map_values(|x: usize| x as int)
}

/// Ranks the hits by score, then by the latest update, and keeps the best
/// `limit` of them.
pub fn rank_search_hits(hits: &Vec<TaskSearchHit>, limit: Option<usize>) -> (r: RankedHits)
    ensures
        ({
            let order = rank_order(hits@, hits@.len() as int);
            let kept = if search_limit(limit) < hits@.len() { search_limit(limit) } else { hits@.len() as int };
            &&& usizes(r.positions@) == order.take(kept)
            &&& r.total_matches == hits@.len()
            &&& r.truncated == (kept < hits@.len())
        }),
{
    let mut order: Vec<usize> = Vec::new();
    let mut i: usize = 0;
    while i < hits.len()
        invariant
            i <= hits@.len(),
            usizes(order@) == rank_order(hits@, i as int),
            forall|j: int| 0 <= j < order@.len() ==> (#[trigger] order@[j]) < i,
        decreases hits.len() - i,
    {
        let ghost sorted = usizes(order@);
        let mut p: usize = order.len();
        assert(sorted.take(p as int) == sorted);
        let ui = chars_of(hits[i].updated_at.as_str());
        while p > 0
            invariant
                p <= order@.len(),
                sorted == usizes(order@),
                i < hits@.len(),
                ui@ == hits@[i as int].updated_at@,
                forall|j: int| 0 <= j < order@.len() ==> (#[trigger] order@[j]) < i,
                rank_position(hits@, sorted.take(p as int), i as int) == rank_position(hits@, sorted, i as int),
            ensures
                p <= order@.len(),
                rank_position(hits@, sorted.take(p as int), i as int) == rank_position(hits@, sorted, i as int),
                p == 0 || !ranks_before(hits@[i as int], hits@[sorted[p - 1]]),
            decreases p,
        {
            let q = order[p - 1];
            assert(sorted.take(p as int).drop_last() == sorted.take(p - 1));
            assert(sorted.take(p as int).last() == q as int);
            let before = hits[i].score > hits[q].score || (hits[i].score == hits[q].score
                && crate::order::chars_less(&chars_of(hits[q].updated_at.as_str()), &ui));
            if !before {
                break;
            }
            p = p - 1;
        }
        proof {
            if p > 0 {
                assert(sorted.take(p as int).last() == sorted[p - 1]);
            }
        }
        order.insert(p, i);
        assert(usizes(order@) == sorted.insert(p as int, i as int));
        i = i + 1;
    }
    proof {
        lemma_rank_order_len(hits@, hits@.len() as int);
    }
    let lim: usize = match limit {
        Some(l) => if l < 1 { 1 } else if l > 50 { 50 } else { l },
        None => 15,
    };
    let kept = if lim < order.len() { lim } else { order.len() };
    let mut positions: Vec<usize> = Vec::new();
    let mut k: usize = 0;
    while k < kept
        invariant
            k <= kept <= order@.len(),
            order@.len() == hits@.len(),
            usizes(order@) == rank_order(hits@, hits@.len() as int),
            usizes(positions@) == usizes(order@).take(k as int),
        decreases kept - k,
    {
        let ghost before = positions@;
        positions.push(order[k]);
        assert(usizes(positions@) == usizes(before).push(order@[k as int] as int));
        assert(usizes(order@).take(k + 1) == usizes(order@).take(k as int).push(usizes(order@)[k as int]));
        k = k + 1;
    }
    RankedHits { positions, total_matches: hits.len(), truncated: kept < hits.len() }
}

} // verus!

use vstd::prelude::*;

use crate::chars::chars_of;
use crate::order::{seq_less, chars_less};
use crate::paths::chars_eq;
use crate::text::{spec_compact_search_text, spec_compact_task_title, compact_search_text,
    compact_task_title};
use crate::vocab::{Urgency, TaskStatus, urgency_rank, status_rank, task_status_rank,
    task_urgency_rank, urgency_name, parse_urgency, msg_bad_urgency};

verus! {

/// A task as the store lists it.
pub struct TaskSummary {
    pub id: String,
    pub project_id: String,
    pub description: String,
    pub urgency: Urgency,
    pub status: TaskStatus,
    /// RFC 3339 text of the last update.
    pub updated_at: String,
    /// The last update in nanoseconds since the Unix epoch (orders the tasks).
    pub updated_at_nanos: i128,
    pub has_source: bool,
    pub version: String,
}

/// A task card without its full Markdown.
pub struct CompactTask {
    pub id: String,
    pub project_id: String,
    pub project_title: String,
    pub title: String,
    pub snippet: String,
    pub urgency: Urgency,
    pub status: TaskStatus,
    pub updated_at: String,
    pub has_source: bool,
    pub version: String,
}

/// The task counts of a digest.
pub struct TaskDigestCounts {
    pub total: usize,
    pub open: usize,
    pub completed: usize,
    pub normal: usize,
    pub important: usize,
    pub urgent: usize,
}

/// One page of the task digest.
pub struct TaskDigest {
    pub tasks: Vec<CompactTask>,
    pub counts: TaskDigestCounts,
    pub next_cursor: Option<String>,
    pub remaining: usize,
}

/// What orders the digest: status rank, urgency rank, newest update first, id.
pub type DigestKey = (u8, u8, i128, Seq<char>);

pub open spec fn digest_key(t: TaskSummary) -> DigestKey {
    (status_rank(t.status), urgency_rank(t.urgency), t.updated_at_nanos, t.id@)
}

/// Whether key `a` comes strictly before key `b` in the digest.
pub open spec fn digest_before(a: DigestKey, b: DigestKey) -> bool {
    ||| a.0 < b.0
    ||| a.0 == b.0 && a.1 < b.1
    ||| a.0 == b.0 && a.1 == b.1 && a.2 > b.2
    ||| a.0 == b.0 && a.1 == b.1 && a.2 == b.2 && seq_less(a.3, b.3)
}

/// Where a stable sort puts index `i` among the already sorted indices `s`.
pub open spec fn digest_position(keys: Seq<DigestKey>, s: Seq<int>, i: int) -> int
    decreases s.len(),
{
    if s.len() == 0 {
        0
    } else if digest_before(keys[i], keys[s.last()]) {
        digest_position(keys, s.drop_last(), i)
    } else {
        s.len() as int
    }
}

/// The indices of `idx` in digest order (a stable sort, as `sort_by` is).
pub open spec fn digest_sort(keys: Seq<DigestKey>, idx: Seq<int>) -> Seq<int>
    decreases idx.len(),
{
    if idx.len() == 0 {
        idx
    } else {
        let sorted = digest_sort(keys, idx.drop_last());
        sorted.insert(digest_position(keys, sorted, idx.last()), idx.last())
    }
}

/// Whether a task passes the urgency filter (an empty filter passes all).
pub open spec fn urgency_selected(filter: Seq<Urgency>, u: Urgency) -> bool {
    filter.len() == 0 || filter.contains(u)
}

/// The indices of the tasks that pass the filter, in list order.
pub open spec fn selected_indices(tasks: Seq<TaskSummary>, filter: Seq<Urgency>) -> Seq<int>
    decreases tasks.len(),
{
    if tasks.len() == 0 {
        Seq::empty()
    } else {
        let prev = selected_indices(tasks.drop_last(), filter);
        if urgency_selected(filter, tasks.last().urgency) {
            prev.push(tasks.len() - 1)
        } else {
            prev
        }
    }
}

/// The title of the project with the given id in the `(id, title)` list.
pub open spec fn project_title_of(titles: Seq<(Seq<char>, Seq<char>)>, id: Seq<char>) -> Seq<char>
    decreases titles.len(),
{
    if titles.len() == 0 {
        "Неизвестный проект"@
    } else if titles[0].0 == id {
        titles[0].1
    } else {
        project_title_of(titles.drop_first(), id)
    }
}

/// The card of a task.
pub open spec fn spec_compact_task(t: TaskSummary, project_title: Seq<char>) -> (Seq<char>, Seq<char>, Seq<char>, Seq<char>, Seq<char>, Urgency, TaskStatus, Seq<char>, bool, Seq<char>) {
    (t.id@, t.project_id@, project_title, spec_compact_task_title(t.description@), spec_compact_search_text(t.description@, 180), t.urgency, t.status, t.updated_at@, t.has_source, t.version@)
}

pub open spec fn compact_view(c: CompactTask) -> (Seq<char>, Seq<char>, Seq<char>, Seq<char>, Seq<char>, Urgency, TaskStatus, Seq<char>, bool, Seq<char>) {
    (c.id@, c.project_id@, c.project_title@, c.title@, c.snippet@, c.urgency, c.status, c.updated_at@, c.has_source, c.version@)
}

/// The card of a task: its compact title and a 180-character snippet.
pub fn compact_task_output(task: &TaskSummary, project_title: String) -> (r: CompactTask)
    ensures
        compact_view(r) == spec_compact_task(*task, project_title@),
{
    CompactTask {
        id: task.id.clone(),
        project_id: task.project_id.clone(),
        project_title,
        title: compact_task_title(task.description.as_str()),
        snippet: compact_search_text(task.description.as_str(), 180),
        urgency: task.urgency,
        status: task.status,
        updated_at: task.updated_at.clone(),
        has_source: task.has_source,
        version: task.version.clone(),
    }
}

fn key_before(a: &TaskSummary, b: &TaskSummary) -> (r: bool)
    ensures
        r == digest_before(digest_key(*a), digest_key(*b)),
{
    let sa = task_status_rank(&a.status);
    let sb = task_status_rank(&b.status);
    if sa != sb {
        return sa < sb;
    }
    let ua = task_urgency_rank(&a.urgency);
    let ub = task_urgency_rank(&b.urgency);
    if ua != ub {
        return ua < ub;
    }
    if a.updated_at_nanos != b.updated_at_nanos {
        return a.updated_at_nanos > b.updated_at_nanos;
    }
    chars_less(&chars_of(a.id.as_str()), &chars_of(b.id.as_str()))
}

pub open spec fn keys_of(tasks: Seq<TaskSummary>) -> Seq<DigestKey> {
    tasks.map_values(|t: TaskSummary| digest_key(t))
}

pub open spec fn ints(v: Seq<usize>) -> Seq<int> {
    v.map_values(|i: usize| i as int)
}

/// The digest order of the tasks that pass the filter.
fn digest_order(tasks: &Vec<TaskSummary>, filter: &Vec<Urgency>) -> (r: Vec<usize>)
    ensures
        ints(r@) == digest_sort(keys_of(tasks@), selected_indices(tasks@, filter@)),
        forall|j: int| 0 <= j < r@.len() ==> (#[trigger] r@[j]) < tasks@.len(),
{
    let ghost keys = keys_of(tasks@);
    let mut order: Vec<usize> = Vec::new();
    let mut i: usize = 0;
    while i < tasks.len()
        invariant
            i <= tasks@.len(),
            keys == keys_of(tasks@),
            ints(order@) == digest_sort(keys, selected_indices(tasks@.take(i as int), filter@)),
            forall|j: int| 0 <= j < order@.len() ==> (#[trigger] order@[j]) < i,
        decreases tasks.len() - i,
    {
        assert(tasks@.take(i as int + 1).drop_last() == tasks@.take(i as int));
        assert(tasks@.take(i as int + 1).last() == tasks@[i as int]);
        assert(tasks@.take(i as int + 1).len() - 1 == i);
        let mut selected = filter.len() == 0;
        let mut f: usize = 0;
        while f < filter.len() && !selected
            invariant
                f <= filter@.len(),
                i < tasks@.len(),
                selected ==> urgency_selected(filter@, tasks@[i as int].urgency),
                !selected ==> filter@.len() > 0 && forall|m: int| 0 <= m < f ==> filter@[m] != tasks@[i as int].urgency,
            decreases filter.len() - f,
        {
            if filter[f] == tasks[i].urgency {
                assert(filter@.contains(tasks@[i as int].urgency));
                selected = true;
            }
            f = f + 1;
        }
        if selected {
            let ghost sorted = ints(order@);
            let mut p: usize = order.len();
            assert(sorted.take(p as int) == sorted);
            while p > 0
                invariant
                    p <= order@.len(),
                    sorted == ints(order@),
                    keys == keys_of(tasks@),
                    i < tasks@.len(),
                    forall|j: int| 0 <= j < order@.len() ==> (#[trigger] order@[j]) < i,
                    digest_position(keys, sorted.take(p as int), i as int) == digest_position(keys, sorted, i as int),
                ensures
                    p <= order@.len(),
                    digest_position(keys, sorted.take(p as int), i as int) == digest_position(keys, sorted, i as int),
                    p == 0 || !digest_before(keys[i as int], keys[sorted[p - 1]]),
                decreases p,
            {
                let q = order[p - 1];
                assert(sorted.take(p as int).drop_last() == sorted.take(p - 1));
                assert(sorted.take(p as int).last() == q as int);
                assert(keys[q as int] == digest_key(tasks@[q as int]));
                assert(keys[i as int] == digest_key(tasks@[i as int]));
                if !key_before(&tasks[i], &tasks[q]) {
                    break;
                }
                p = p - 1;
            }
            proof {
                if p > 0 {
                    assert(sorted.take(p as int).last() == sorted[p - 1]);
                }
            }
            order.insert(p, i);
            assert(ints(order@) == sorted.insert(p as int, i as int));
            assert(selected_indices(tasks@.take(i as int + 1), filter@) == selected_indices(tasks@.take(i as int), filter@).push(i as int));
            assert(selected_indices(tasks@.take(i as int + 1), filter@).drop_last() == selected_indices(tasks@.take(i as int), filter@));
        } else {
            proof {
                if filter@.contains(tasks@[i as int].urgency) {
                    let m = choose|m: int| 0 <= m < filter@.len() && filter@[m] == tasks@[i as int].urgency;
                    assert(filter@[m] != tasks@[i as int].urgency);
                }
            }
            assert(selected_indices(tasks@.take(i as int + 1), filter@) == selected_indices(tasks@.take(i as int), filter@));
        }
        i = i + 1;
    }
    assert(tasks@.take(tasks@.len() as int) == tasks@);
    order
}

/// The urgency with the given name, if any.
pub open spec fn urgency_of_name(n: Seq<char>) -> Option<Urgency> {
    if n == urgency_name(Urgency::Normal) {
        Some(Urgency::Normal)
    } else if n == urgency_name(Urgency::Important) {
        Some(Urgency::Important)
    } else if n == urgency_name(Urgency::Urgent) {
        Some(Urgency::Urgent)
    } else {
        None
    }
}

/// The urgency filter that the names give, or the error for an unknown name.
pub open spec fn spec_urgency_filter(names: Seq<Seq<char>>) -> Option<Seq<Urgency>>
    decreases names.len(),
{
    if names.len() == 0 {
        Some(Seq::empty())
    } else {
        match (spec_urgency_filter(names.drop_last()), urgency_of_name(names.last())) {
            (Some(prev), Some(u)) => Some(prev.push(u)),
            _ => None,
        }
    }
}

/// How many of the indexed tasks satisfy `pred`.
pub open spec fn count_where(tasks: Seq<TaskSummary>, idx: Seq<int>, pred: spec_fn(TaskSummary) -> bool) -> nat
    decreases idx.len(),
{
    if idx.len() == 0 {
        0
    } else {
        count_where(tasks, idx.drop_last(), pred) + if pred(tasks[idx.last()]) { 1nat } else { 0nat }
    }
}

/// Index of the first entry of `order` whose task has the id `cursor`, or
/// `order.len()`.
pub open spec fn cursor_position(tasks: Seq<TaskSummary>, order: Seq<int>, cursor: Seq<char>) -> int
    decreases order.len(),
{
    if order.len() == 0 {
        0
    } else if tasks[order[0]].id@ == cursor {
        0
    } else {
        1 + cursor_position(tasks, order.drop_first(), cursor)
    }
}

pub open spec fn msg_cursor_not_found() -> Seq<char> {
    "cursor не найден в текущем дайджесте; начните заново"@
}

/// The page size of the digest: the requested limit (20 by default) within 1..=50.
pub open spec fn digest_limit(limit: Option<usize>) -> int {
    let l: int = match limit { Some(l) => l as int, None => 20 };
    if l < 1 { 1 } else if l > 50 { 50 } else { l }
}

/// The card views of a digest page.
pub open spec fn page_cards(tasks: Seq<TaskSummary>, titles: Seq<(Seq<char>, Seq<char>)>, page: Seq<int>) -> Seq<(Seq<char>, Seq<char>, Seq<char>, Seq<char>, Seq<char>, Urgency, TaskStatus, Seq<char>, bool, Seq<char>)> {
    page.map_values(|i: int| spec_compact_task(tasks[i], project_title_of(titles, tasks[i].project_id@)))
}

pub open spec fn pair_views(v: Seq<(String, String)>) -> Seq<(Seq<char>, Seq<char>)> {
    v.map_values(|p: (String, String)| (p.0@, p.1@))
}

fn title_lookup(titles: &Vec<(String, String)>, id: &String) -> (r: String)
    ensures
        r@ == project_title_of(pair_views(titles@), id@),
{
    let ghost ts = pair_views(titles@);
    let idc = chars_of(id.as_str());
    let mut i: usize = 0;
    assert(ts.skip(0) == ts);
    while i < titles.len()
        invariant
            i <= titles@.len(),
            ts == pair_views(titles@),
            idc@ == id@,
            project_title_of(ts.skip(i as int), id@) == project_title_of(ts, id@),
        decreases titles.len() - i,
    {
        assert(ts.skip(i as int)[0] == (titles@[i as int].0@, titles@[i as int].1@));
        if chars_eq(&chars_of(titles[i].0.as_str()), &idc) {
            return titles[i].1.clone();
        }
        assert(ts.skip(i as int).drop_first() == ts.skip(i + 1));
        i = i + 1;
    }
    String::from_str("Неизвестный проект")
}

/// What `task_digest` answers for these tasks, project titles, urgency
/// names, cursor and limit.
pub open spec fn digest_answer(
    tasks: Seq<TaskSummary>,
    titles: Seq<(Seq<char>, Seq<char>)>,
    names: Seq<Seq<char>>,
    cursor: Option<Seq<char>>,
    limit: Option<usize>,
    r: Result<TaskDigest, String>,
) -> bool {
    match spec_urgency_filter(names) {
        None => r == Err::<TaskDigest, String>(r->Err_0) && r->Err_0@ == msg_bad_urgency(),
        Some(filter) => {
            let order = digest_sort(keys_of(tasks), selected_indices(tasks, filter));
            let sel = selected_indices(tasks, filter);
            let start: int = match cursor {
                Some(c) => cursor_position(tasks, order, c) + 1,
                None => 0,
            };
            match cursor {
                Some(c) if cursor_position(tasks, order, c) >= order.len() => r is Err && r->Err_0@ == msg_cursor_not_found(),
                _ => r is Ok && {
                    let d = r->Ok_0;
                    let end: int = if start + digest_limit(limit) <= order.len() { start + digest_limit(limit) } else { order.len() as int };
                    let page = order.subrange(start, end);
                    &&& d.counts.total == order.len()
                    &&& d.counts.open == count_where(tasks, sel, |t: TaskSummary| t.status == TaskStatus::Open)
                    &&& d.counts.completed == count_where(tasks, sel, |t: TaskSummary| t.status == TaskStatus::Completed)
                    &&& d.counts.normal == count_where(tasks, sel, |t: TaskSummary| t.urgency == Urgency::Normal)
                    &&& d.counts.important == count_where(tasks, sel, |t: TaskSummary| t.urgency == Urgency::Important)
                    &&& d.counts.urgent == count_where(tasks, sel, |t: TaskSummary| t.urgency == Urgency::Urgent)
                    &&& d.tasks@.map_values(|c: CompactTask| compact_view(c)) == page_cards(tasks, titles, page)
                    &&& d.remaining == order.len() - end
                    &&& match d.next_cursor {
                        Some(c) => end < order.len() && c@ == tasks[order[end - 1]].id@,
                        None => end >= order.len(),
                    }
                },
            }
        },
    }
}

/// A compact, prioritized digest of tasks: the tasks that pass the urgency
/// filter (named by `urgencies`; empty for all) ordered open first, then by
/// urgency, newest update and id; their counts; and the page of `limit` cards
/// (20 by default, within 1..=50) after the task named by `cursor`, with the
/// cursor of the next page and the number of tasks after it. Unknown urgency
/// names and cursors that name no task of the digest are refused.
pub fn task_digest(
    tasks: &Vec<TaskSummary>,
    project_titles: &Vec<(String, String)>,
    urgencies: &Vec<String>,
    cursor: Option<&str>,
    limit: Option<usize>,
) -> (r: Result<TaskDigest, String>)
    ensures
        digest_answer(
            tasks@,
            pair_views(project_titles@),
            crate::order::str_views(urgencies@),
            match cursor { Some(c) => Some(c@), None => None },
            limit,
            r,
        ),
{
    let mut filter: Vec<Urgency> = Vec::new();
    let ghost names = crate::order::str_views(urgencies@);
    let mut i: usize = 0;
    while i < urgencies.len()
        invariant
            i <= urgencies@.len(),
            names == crate::order::str_views(urgencies@),
            spec_urgency_filter(names.take(i as int)) == Some(filter@),
        decreases urgencies.len() - i,
    {
        assert(names.take(i as int + 1).drop_last() == names.take(i as int));
        assert(names.take(i as int + 1).last() == urgencies@[i as int]@);
        proof {
            crate::vocab::lemma_names_are_distinct();
        }
        match parse_urgency(urgencies[i].as_str()) {
            Ok(u) => {
                assert(urgency_of_name(urgencies@[i as int]@) == Some(u));
                filter.push(u);
            },
            Err(e) => {
                assert(urgency_of_name(urgencies@[i as int]@) is None);
                proof {
                    lemma_filter_none_stays(names, i as int + 1);
                }
                return Err(e);
            },
        }
        i = i + 1;
    }
    assert(names.take(urgencies@.len() as int) == names);
    let order = digest_order(tasks, &filter);
    let ghost sel = selected_indices(tasks@, filter@);
    let ghost ord = ints(order@);
    let counts = digest_counts(tasks, &filter);
    proof {
        lemma_digest_sort_len(keys_of(tasks@), sel);
    }
    let start: usize = match cursor {
        Some(c) => {
            let cc = chars_of(c);
            let mut k: usize = 0;
            assert(ord.skip(0) == ord);
            while k < order.len() && !chars_eq(&chars_of(tasks[order[k]].id.as_str()), &cc)
                invariant
                    k <= order@.len(),
                    ord == ints(order@),
                    cc@ == c@,
                    forall|j: int| 0 <= j < order@.len() ==> (#[trigger] order@[j]) < tasks@.len(),
                    cursor_position(tasks@, ord.skip(k as int), c@) + k == cursor_position(tasks@, ord, c@),
                decreases order.len() - k,
            {
                assert(ord.skip(k as int)[0] == order@[k as int] as int);
                assert(ord.skip(k as int).drop_first() == ord.skip(k + 1));
                k = k + 1;
            }
            proof {
                if k < order@.len() {
                    assert(ord.skip(k as int)[0] == order@[k as int] as int);
                } else {
                    assert(ord.skip(k as int).len() == 0);
                }
            }
            if k >= order.len() {
                return Err(String::from_str("cursor не найден в текущем дайджесте; начните заново"));
            }
            k + 1
        },
        None => 0,
    };
    let lim: usize = match limit {
        Some(l) => if l < 1 { 1 } else if l > 50 { 50 } else { l },
        None => 20,
    };
    let end: usize = if order.len() - start >= lim { start + lim } else { order.len() };
    let mut cards: Vec<CompactTask> = Vec::new();
    let mut j: usize = start;
    while j < end
        invariant
            start <= j <= end <= order@.len(),
            ord == ints(order@),
            forall|m: int| 0 <= m < order@.len() ==> (#[trigger] order@[m]) < tasks@.len(),
            cards@.map_values(|c: CompactTask| compact_view(c)) == page_cards(tasks@, pair_views(project_titles@), ord.subrange(start as int, j as int)),
        decreases end - j,
    {
        let t = &tasks[order[j]];
        let title = title_lookup(project_titles, &t.project_id);
        let card = compact_task_output(t, title);
        let ghost before = cards@.map_values(|c: CompactTask| compact_view(c));
        cards.push(card);
        assert(ord.subrange(start as int, j + 1) == ord.subrange(start as int, j as int).push(order@[j as int] as int));
        assert(cards@.map_values(|c: CompactTask| compact_view(c)) == before.push(compact_view(card)));
        j = j + 1;
    }
    let remaining = order.len() - end;
    let next_cursor = if remaining > 0 {
        Some(tasks[order[end - 1]].id.clone())
    } else {
        None
    };
    Ok(TaskDigest { tasks: cards, counts, next_cursor, remaining })
}

fn selected_exec(filter: &Vec<Urgency>, u: Urgency) -> (r: bool)
    ensures
        r == urgency_selected(filter@, u),
{
    if filter.len() == 0 {
        return true;
    }
    let mut f: usize = 0;
    while f < filter.len()
        invariant
            f <= filter@.len(),
            forall|m: int| 0 <= m < f ==> filter@[m] != u,
        decreases filter.len() - f,
    {
        if filter[f] == u {
            assert(filter@.contains(u));
            return true;
        }
        f = f + 1;
    }
    proof {
        if filter@.contains(u) {
            let m = choose|m: int| 0 <= m < filter@.len() && filter@[m] == u;
            assert(filter@[m] != u);
        }
    }
    false
}

/// The counts of the tasks that pass the filter.
fn digest_counts(tasks: &Vec<TaskSummary>, filter: &Vec<Urgency>) -> (r: TaskDigestCounts)
    ensures
        ({
            let sel = selected_indices(tasks@, filter@);
            &&& r.total == sel.len()
            &&& r.open == count_where(tasks@, sel, |t: TaskSummary| t.status == TaskStatus::Open)
            &&& r.completed == count_where(tasks@, sel, |t: TaskSummary| t.status == TaskStatus::Completed)
            &&& r.normal == count_where(tasks@, sel, |t: TaskSummary| t.urgency == Urgency::Normal)
            &&& r.important == count_where(tasks@, sel, |t: TaskSummary| t.urgency == Urgency::Important)
            &&& r.urgent == count_where(tasks@, sel, |t: TaskSummary| t.urgency == Urgency::Urgent)
        }),
{
    let ghost p_open = |t: TaskSummary| t.status == TaskStatus::Open;
    let ghost p_completed = |t: TaskSummary| t.status == TaskStatus::Completed;
    let ghost p_normal = |t: TaskSummary| t.urgency == Urgency::Normal;
    let ghost p_important = |t: TaskSummary| t.urgency == Urgency::Important;
    let ghost p_urgent = |t: TaskSummary| t.urgency == Urgency::Urgent;
    let mut c = TaskDigestCounts { total: 0, open: 0, completed: 0, normal: 0, important: 0, urgent: 0 };
    let mut i: usize = 0;
    while i < tasks.len()
        invariant
            i <= tasks@.len(),
            p_open == (|t: TaskSummary| t.status == TaskStatus::Open),
            p_completed == (|t: TaskSummary| t.status == TaskStatus::Completed),
            p_normal == (|t: TaskSummary| t.urgency == Urgency::Normal),
            p_important == (|t: TaskSummary| t.urgency == Urgency::Important),
            p_urgent == (|t: TaskSummary| t.urgency == Urgency::Urgent),
            c.total == selected_indices(tasks@.take(i as int), filter@).len(),
            c.total <= i,
            c.open == count_where(tasks@, selected_indices(tasks@.take(i as int), filter@), p_open),
            c.completed == count_where(tasks@, selected_indices(tasks@.take(i as int), filter@), p_completed),
            c.normal == count_where(tasks@, selected_indices(tasks@.take(i as int), filter@), p_normal),
            c.important == count_where(tasks@, selected_indices(tasks@.take(i as int), filter@), p_important),
            c.urgent == count_where(tasks@, selected_indices(tasks@.take(i as int), filter@), p_urgent),
            c.open <= c.total, c.completed <= c.total, c.normal <= c.total, c.important <= c.total, c.urgent <= c.total,
        decreases tasks.len() - i,
    {
        let ghost prev = selected_indices(tasks@.take(i as int), filter@);
        assert(tasks@.take(i as int + 1).drop_last() == tasks@.take(i as int));
        assert(tasks@.take(i as int + 1).last() == tasks@[i as int]);
        if selected_exec(filter, tasks[i].urgency) {
            let ghost next = prev.push(i as int);
            assert(selected_indices(tasks@.take(i as int + 1), filter@) == next);
            assert(next.drop_last() == prev);
            c.total = c.total + 1;
            if tasks[i].status == TaskStatus::Open { c.open = c.open + 1; } else { c.completed = c.completed + 1; }
            match tasks[i].urgency {
                Urgency::Normal => { c.normal = c.normal + 1; },
                Urgency::Important => { c.important = c.important + 1; },
                Urgency::Urgent => { c.urgent = c.urgent + 1; },
            }
        } else {
            assert(selected_indices(tasks@.take(i as int + 1), filter@) == prev);
        }
        i = i + 1;
    }
    assert(tasks@.take(tasks@.len() as int) == tasks@);
    c
}

proof fn lemma_digest_position_bounds(keys: Seq<DigestKey>, s: Seq<int>, i: int)
    ensures
        0 <= digest_position(keys, s, i) <= s.len(),
    decreases s.len(),
{
    if s.len() > 0 {
        lemma_digest_position_bounds(keys, s.drop_last(), i);
    }
}

/// The digest order holds as many entries as it orders.
proof fn lemma_digest_sort_len(keys: Seq<DigestKey>, idx: Seq<int>)
    ensures
        digest_sort(keys, idx).len() == idx.len(),
    decreases idx.len(),
{
    if idx.len() > 0 {
        lemma_digest_sort_len(keys, idx.drop_last());
        lemma_digest_position_bounds(keys, digest_sort(keys, idx.drop_last()), idx.last());
    }
}

proof fn lemma_filter_none_stays(names: Seq<Seq<char>>, k: int)
    requires
        0 < k <= names.len(),
        spec_urgency_filter(names.take(k)) is None,
    ensures
        spec_urgency_filter(names) is None,
    decreases names.len() - k,
{
    if k < names.len() {
        assert(names.take(k + 1).drop_last() == names.take(k));
        lemma_filter_none_stays(names, k + 1);
    } else {
        assert(names.take(k) == names);
    }
}


/// The position of the first id equal to `id`, or -1.
pub open spec fn first_id_position(ids: Seq<Seq<char>>, id: Seq<char>) -> int
    decreases ids.len(),
{
    if ids.len() == 0 {
        -1
    } else if ids[0] == id {
        0
    } else {
        let k = first_id_position(ids.drop_first(), id);
        if k < 0 { -1 } else { k + 1 }
    }
}

proof fn lemma_first_id_position(ids: Seq<Seq<char>>, id: Seq<char>)
    ensures
        -1 <= first_id_position(ids, id) < ids.len(),
        first_id_position(ids, id) >= 0 ==> ids[first_id_position(ids, id)] == id,
        forall|i: int| 0 <= i < first_id_position(ids, id) ==> ids[i] != id,
        first_id_position(ids, id) < 0 ==> forall|i: int| 0 <= i < ids.len() ==> ids[i] != id,
    decreases ids.len(),
{
    if ids.len() > 0 && ids[0] != id {
        lemma_first_id_position(ids.drop_first(), id);
        assert forall|i: int| 0 < i < ids.len() implies ids[i] == ids.drop_first()[i - 1] by {}
    }
}

/// One page of a task list.
pub struct TaskPage {
    /// Position of the page's first task in the list.
    pub start: usize,
    /// Position after the page's last task.
    pub end: usize,
    pub total: usize,
    pub next_cursor: Option<String>,
    pub remaining: usize,
}

pub open spec fn msg_task_cursor_not_found() -> Seq<char> {
    "cursor не найден в текущем списке задач; начните заново"@
}

/// The page of a task list (by the tasks' ids, in list order) that starts
/// after the task named by `cursor` (at the beginning without one) and holds
/// at most `limit` tasks (25 by default, between 1 and 50); with the number
/// of tasks after it and, when there are any, the id of its last task as the
/// next cursor. A cursor that names no task is refused.
pub fn task_page(ids: &Vec<String>, cursor: Option<&str>, limit: Option<usize>) -> (r: Result<TaskPage, String>)
    ensures
        ({
            let ids_v = crate::order::str_views(ids@);
            let start: int = match cursor {
                Some(c) => first_id_position(ids_v, c@) + 1,
                None => 0,
            };
            let lim = crate::walk::clamp(match limit { Some(x) => x as int, None => 25 }, 1, 50);
            match r {
                Err(e) => cursor is Some && start == 0 && e@ == msg_task_cursor_not_found(),
                Ok(p) => {
                    let end = if start + lim < ids_v.len() { start + lim } else { ids_v.len() as int };
                    &&& (cursor is None || start > 0)
                    &&& p.start == start
                    &&& p.end == end
                    &&& p.total == ids_v.len()
                    &&& p.remaining == ids_v.len() - end
                    &&& match p.next_cursor {
                        Some(c) => ids_v.len() > end && c@ == ids_v[end - 1],
                        None => ids_v.len() == end,
                    }
                }
            }
        }),
{
    let ghost ids_v = crate::order::str_views(ids@);
    let total = ids.len();
    let start: usize = match cursor {
        Some(c) => {
            let cv = chars_of(c);
            proof {
                lemma_first_id_position(ids_v, c@);
            }
            let mut i: usize = 0;
            while i < total
                invariant
                    i <= total,
                    total == ids@.len(),
                    ids_v == crate::order::str_views(ids@),
                    cv@ == c@,
                    forall|t: int| 0 <= t < i ==> ids_v[t] != c@,
                    -1 <= first_id_position(ids_v, c@) < ids_v.len(),
                    first_id_position(ids_v, c@) >= 0 ==> ids_v[first_id_position(ids_v, c@)] == c@,
                    forall|t: int| 0 <= t < first_id_position(ids_v, c@) ==> ids_v[t] != c@,
                ensures
                    i <= total,
                    i < total ==> ids_v[i as int] == c@,
                decreases total - i,
            {
                if chars_eq(&chars_of(ids[i].as_str()), &cv) {
                    break;
                }
                i = i + 1;
            }
            if i == total {
                return Err(String::from_str("cursor не найден в текущем списке задач; начните заново"));
            }
            proof {
                let f = first_id_position(ids_v, c@);
                assert(ids_v[i as int] == c@);
                if f < 0 {
                    assert(false);
                }
                if f > i {
                    assert(false);
                }
            }
            i + 1
        },
        None => 0,
    };
    let lim: usize = match limit {
        Some(x) => if x < 1 { 1 } else if x > 50 { 50 } else { x },
        None => 25,
    };
    let end = if lim < total - start { start + lim } else { total };
    let remaining = total - end;
    let next_cursor = if remaining > 0 { Some(ids[end - 1].clone()) } else { None };
    Ok(TaskPage { start, end, total, next_cursor, remaining })
}


/// Law: over a list of distinct task ids, the page that the next cursor asks
/// for starts right after the page that gave it: `task_page` pages neither
/// skip nor repeat a task.
pub proof fn lemma_task_pages_chain(ids: Seq<Seq<char>>, end: int)
    requires
        ids.no_duplicates(),
        0 < end <= ids.len(),
    ensures
        first_id_position(ids, ids[end - 1]) + 1 == end,
{
    lemma_first_id_position(ids, ids[end - 1]);
    let f = first_id_position(ids, ids[end - 1]);
    if f < 0 {
        assert(ids[end - 1] != ids[end - 1]);
    }
    if f != end - 1 {
        assert(ids[f] == ids[end - 1]);
    }
}


/// Law: when the tasks have distinct ids, the cursor that a digest page hands
/// out makes the next call start right after that page, so successive pages
/// give every task of the digest once, in digest order.
pub proof fn lemma_digest_pages_chain(tasks: Seq<TaskSummary>, filter: Seq<Urgency>, end: int)
    requires
        forall|i: int, j: int|
            0 <= i < tasks.len() && 0 <= j < tasks.len() && i != j ==> (#[trigger] tasks[i]).id@
                != (#[trigger] tasks[j]).id@,
        0 < end <= digest_sort(keys_of(tasks), selected_indices(tasks, filter)).len(),
    ensures
        ({
            let order = digest_sort(keys_of(tasks), selected_indices(tasks, filter));
            cursor_position(tasks, order, tasks[order[end - 1]].id@) + 1 == end
        }),
{
    let sel = selected_indices(tasks, filter);
    lemma_selected_indices(tasks, filter);
    lemma_digest_sort_keeps(keys_of(tasks), sel);
    let order = digest_sort(keys_of(tasks), sel);
    assert forall|i: int| 0 <= i < order.len() implies 0 <= #[trigger] order[i] < tasks.len() by {
        assert(sel.contains(order[i]));
    }
    lemma_cursor_position_of(tasks, order, end - 1);
}

proof fn lemma_selected_indices(tasks: Seq<TaskSummary>, filter: Seq<Urgency>)
    ensures
        selected_indices(tasks, filter).no_duplicates(),
        forall|i: int|
            0 <= i < selected_indices(tasks, filter).len() ==> 0 <= #[trigger] selected_indices(tasks, filter)[i]
                < tasks.len(),
    decreases tasks.len(),
{
    if tasks.len() > 0 {
        lemma_selected_indices(tasks.drop_last(), filter);
    }
}

proof fn lemma_digest_sort_keeps(keys: Seq<DigestKey>, idx: Seq<int>)
    requires
        idx.no_duplicates(),
    ensures
        digest_sort(keys, idx).no_duplicates(),
        forall|x: int| digest_sort(keys, idx).contains(x) <==> idx.contains(x),
    decreases idx.len(),
{
    if idx.len() > 0 {
        let rest = idx.drop_last();
        let x = idx.last();
        assert forall|a: int, b: int| 0 <= a < b < rest.len() implies rest[a] != rest[b] by {
            assert(rest[a] == idx[a] && rest[b] == idx[b]);
        }
        lemma_digest_sort_keeps(keys, rest);
        let sorted = digest_sort(keys, rest);
        let p = digest_position(keys, sorted, x);
        lemma_digest_position_bounds(keys, sorted, x);
        let r = sorted.insert(p, x);
        assert(!rest.contains(x)) by {
            if rest.contains(x) {
                let k = choose|k: int| 0 <= k < rest.len() && rest[k] == x;
                assert(idx[k] == idx[idx.len() - 1]);
            }
        }
        assert(!sorted.contains(x));
        assert forall|y: int| r.contains(y) <==> idx.contains(y) by {
            if r.contains(y) {
                let k = choose|k: int| 0 <= k < r.len() && r[k] == y;
                if k == p {
                    assert(idx[idx.len() - 1] == y);
                } else {
                    let sk = if k < p { k } else { k - 1 };
                    assert(sorted[sk] == y);
                    assert(sorted.contains(y));
                    assert(rest.contains(y));
                    let m = choose|m: int| 0 <= m < rest.len() && rest[m] == y;
                    assert(idx[m] == y);
                }
            }
            if idx.contains(y) {
                let m = choose|m: int| 0 <= m < idx.len() && idx[m] == y;
                if m < idx.len() - 1 {
                    assert(rest[m] == y);
                    assert(rest.contains(y));
                    let k = choose|k: int| 0 <= k < sorted.len() && sorted[k] == y;
                    if k < p {
                        assert(r[k] == y);
                    } else {
                        assert(r[k + 1] == y);
                    }
                } else {
                    assert(r[p] == y);
                }
            }
        }
        assert forall|a: int, b: int| 0 <= a < r.len() && 0 <= b < r.len() && a != b implies r[a] != r[b] by {
            if a != p && b != p {
                let sa = if a < p { a } else { a - 1 };
                let sb = if b < p { b } else { b - 1 };
                assert(r[a] == sorted[sa] && r[b] == sorted[sb]);
            } else if a == p {
                let sb = if b < p { b } else { b - 1 };
                assert(r[b] == sorted[sb]);
            } else {
                let sa = if a < p { a } else { a - 1 };
                assert(r[a] == sorted[sa]);
            }
        }
    }
}

proof fn lemma_cursor_position_of(tasks: Seq<TaskSummary>, order: Seq<int>, k: int)
    requires
        forall|i: int, j: int|
            0 <= i < tasks.len() && 0 <= j < tasks.len() && i != j ==> (#[trigger] tasks[i]).id@
                != (#[trigger] tasks[j]).id@,
        order.no_duplicates(),
        forall|i: int| 0 <= i < order.len() ==> 0 <= #[trigger] order[i] < tasks.len(),
        0 <= k < order.len(),
    ensures
        cursor_position(tasks, order, tasks[order[k]].id@) == k,
    decreases k,
{
    if k > 0 {
        let rest = order.drop_first();
        assert(order[0] != order[k]);
        assert(tasks[order[0]].id@ != tasks[order[k]].id@);
        assert(rest[k - 1] == order[k]);
        assert forall|a: int, b: int| 0 <= a < b < rest.len() implies rest[a] != rest[b] by {
            assert(rest[a] == order[a + 1] && rest[b] == order[b + 1]);
        }
        assert forall|i: int| 0 <= i < rest.len() implies 0 <= #[trigger] rest[i] < tasks.len() by {
            assert(rest[i] == order[i + 1]);
        }
        lemma_cursor_position_of(tasks, rest, k - 1);
    }
}


/// Law: two successive digest calls over tasks with distinct ids, the second
/// with the cursor that the first handed out: the second succeeds; its page
/// is the part of the digest order right after the first page, so no task is
/// skipped or shown twice; it leaves as many tasks after it as the first
/// left, less those it shows; and it counts the same digest.
pub proof fn lemma_digest_next_page(
    tasks: Seq<TaskSummary>,
    titles: Seq<(Seq<char>, Seq<char>)>,
    names: Seq<Seq<char>>,
    cursor: Option<Seq<char>>,
    limit: Option<usize>,
    first: TaskDigest,
    next_limit: Option<usize>,
    second: Result<TaskDigest, String>,
)
    requires
        forall|i: int, j: int|
            0 <= i < tasks.len() && 0 <= j < tasks.len() && i != j ==> (#[trigger] tasks[i]).id@
                != (#[trigger] tasks[j]).id@,
        digest_answer(tasks, titles, names, cursor, limit, Ok(first)),
        first.next_cursor is Some,
        digest_answer(tasks, titles, names, Some(first.next_cursor->0@), next_limit, second),
    ensures
        second is Ok,
        spec_urgency_filter(names) is Some,
        ({
            let order = digest_sort(keys_of(tasks), selected_indices(tasks, spec_urgency_filter(names)->0));
            let from = order.len() - first.remaining;
            let d = second->Ok_0;
            &&& 0 < from < order.len()
            &&& from + d.tasks@.len() <= order.len()
            &&& d.tasks@.map_values(|c: CompactTask| compact_view(c)) == page_cards(
                tasks,
                titles,
                order.subrange(from, from + d.tasks@.len()),
            )
            &&& d.remaining == first.remaining - d.tasks@.len()
            &&& d.counts.total == first.counts.total
        }),
{
    let r1 = Ok::<TaskDigest, String>(first);
    if spec_urgency_filter(names) is None {
        assert(r1 != Err::<TaskDigest, String>(r1->Err_0));
        assert(false);
    }
    let filter = spec_urgency_filter(names)->0;
    let order = digest_sort(keys_of(tasks), selected_indices(tasks, filter));
    let start1: int = match cursor {
        Some(c) => cursor_position(tasks, order, c) + 1,
        None => 0,
    };
    let end1: int = if start1 + digest_limit(limit) <= order.len() { start1 + digest_limit(limit) } else { order.len() as int };
    assert(first.remaining == order.len() - end1);
    assert(end1 < order.len());
    if cursor is Some {
        lemma_cursor_position_nonneg(tasks, order, cursor->0);
    }
    assert(end1 > 0);
    lemma_digest_pages_chain(tasks, filter, end1);
    let c = first.next_cursor->0@;
    assert(c == tasks[order[end1 - 1]].id@);
    assert(cursor_position(tasks, order, c) + 1 == end1);
    let d = second->Ok_0;
    let end2: int = if end1 + digest_limit(next_limit) <= order.len() { end1 + digest_limit(next_limit) } else { order.len() as int };
    let cards = d.tasks@.map_values(|x: CompactTask| compact_view(x));
    assert(cards == page_cards(tasks, titles, order.subrange(end1, end2)));
    assert(cards.len() == d.tasks@.len());
    assert(page_cards(tasks, titles, order.subrange(end1, end2)).len() == end2 - end1);
    assert(d.tasks@.len() == end2 - end1);
    assert(d.remaining == order.len() - end2);
}

proof fn lemma_cursor_position_nonneg(tasks: Seq<TaskSummary>, order: Seq<int>, c: Seq<char>)
    ensures
        0 <= cursor_position(tasks, order, c),
    decreases order.len(),
{
    if order.len() > 0 && tasks[order[0]].id@ != c {
        lemma_cursor_position_nonneg(tasks, order.drop_first(), c);
    }
}


/// Law: the digest lists open tasks before completed ones; among tasks of
/// one status, urgent before important before normal; and among tasks of one
/// status and urgency, the more recently updated first.
pub proof fn lemma_digest_priority(tasks: Seq<TaskSummary>, filter: Seq<Urgency>, a: int, b: int)
    requires
        0 <= a < digest_sort(keys_of(tasks), selected_indices(tasks, filter)).len(),
        0 <= b < digest_sort(keys_of(tasks), selected_indices(tasks, filter)).len(),
        ({
            let order = digest_sort(keys_of(tasks), selected_indices(tasks, filter));
            let x = tasks[order[a]];
            let y = tasks[order[b]];
            ||| x.status == TaskStatus::Open && y.status == TaskStatus::Completed
            ||| x.status == y.status && x.urgency == Urgency::Urgent && y.urgency != Urgency::Urgent
            ||| x.status == y.status && x.urgency == Urgency::Important && y.urgency == Urgency::Normal
            ||| x.status == y.status && x.urgency == y.urgency && x.updated_at_nanos > y.updated_at_nanos
        }),
    ensures
        a < b,
{
    let keys = keys_of(tasks);
    let sel = selected_indices(tasks, filter);
    let order = digest_sort(keys, sel);
    lemma_selected_indices(tasks, filter);
    lemma_digest_sort_keeps(keys, sel);
    assert(sel.contains(order[a]));
    assert(sel.contains(order[b]));
    let x = tasks[order[a]];
    let y = tasks[order[b]];
    assert(keys[order[a]] == digest_key(x));
    assert(keys[order[b]] == digest_key(y));
    assert(digest_before(keys[order[a]], keys[order[b]]));
    lemma_digest_sort_sorted(keys, sel);
    if b < a {
        assert(!digest_before(keys[order[a]], keys[order[b]]));
    }
    if a == b {
        assert(false);
    }
}

proof fn lemma_digest_before_transitive(a: DigestKey, b: DigestKey, c: DigestKey)
    requires
        digest_before(a, b),
        digest_before(b, c),
    ensures
        digest_before(a, c),
{
    if a.0 == b.0 && b.0 == c.0 && a.1 == b.1 && b.1 == c.1 && a.2 == b.2 && b.2 == c.2 {
        crate::order::lemma_seq_less_transitive(a.3, b.3, c.3);
    }
}

proof fn lemma_digest_before_asymmetric(a: DigestKey, b: DigestKey)
    requires
        digest_before(a, b),
    ensures
        !digest_before(b, a),
{
    if digest_before(b, a) {
        lemma_digest_before_transitive(a, b, a);
        crate::order::lemma_seq_less_irreflexive(a.3);
    }
}

proof fn lemma_digest_before_total(a: DigestKey, b: DigestKey)
    requires
        a != b,
    ensures
        digest_before(a, b) || digest_before(b, a),
{
    if a.0 == b.0 && a.1 == b.1 && a.2 == b.2 {
        assert(a.3 != b.3);
        crate::order::lemma_seq_less_total(a.3, b.3);
    }
}

/// What does not come before `b`, and after which `c` does not come, does
/// not come before `c`.
proof fn lemma_digest_not_before(a: DigestKey, b: DigestKey, c: DigestKey)
    requires
        !digest_before(a, b),
        !digest_before(b, c),
    ensures
        !digest_before(a, c),
{
    if a != b && b != c {
        lemma_digest_before_total(a, b);
        lemma_digest_before_total(b, c);
        lemma_digest_before_transitive(c, b, a);
        lemma_digest_before_asymmetric(c, a);
    }
}

proof fn lemma_digest_position_places(keys: Seq<DigestKey>, s: Seq<int>, x: int)
    ensures
        forall|k: int|
            digest_position(keys, s, x) <= k < s.len() ==> digest_before(keys[x], #[trigger] keys[s[k]]),
        digest_position(keys, s, x) > 0 ==> !digest_before(keys[x], keys[s[digest_position(keys, s, x) - 1]]),
    decreases s.len(),
{
    if s.len() > 0 {
        let rest = s.drop_last();
        lemma_digest_position_places(keys, rest, x);
        lemma_digest_position_bounds(keys, rest, x);
        if digest_before(keys[x], keys[s.last()]) {
            let p = digest_position(keys, rest, x);
            assert forall|k: int| p <= k < s.len() implies digest_before(keys[x], #[trigger] keys[s[k]]) by {
                if k < rest.len() {
                    assert(rest[k] == s[k]);
                }
            }
            if p > 0 {
                assert(rest[p - 1] == s[p - 1]);
            }
        }
    }
}

proof fn lemma_digest_sort_sorted(keys: Seq<DigestKey>, idx: Seq<int>)
    ensures
        forall|i: int, j: int|
            0 <= i < j < digest_sort(keys, idx).len() ==> !digest_before(
                #[trigger] keys[digest_sort(keys, idx)[j]],
                #[trigger] keys[digest_sort(keys, idx)[i]],
            ),
    decreases idx.len(),
{
    if idx.len() > 0 {
        let rest = idx.drop_last();
        let x = idx.last();
        lemma_digest_sort_sorted(keys, rest);
        let sorted = digest_sort(keys, rest);
        let p = digest_position(keys, sorted, x);
        lemma_digest_position_bounds(keys, sorted, x);
        lemma_digest_position_places(keys, sorted, x);
        let r = sorted.insert(p, x);
        assert forall|i: int, j: int| 0 <= i < j < r.len() implies !digest_before(
            #[trigger] keys[r[j]],
            #[trigger] keys[r[i]],
        ) by {
            if i < p && j < p {
                assert(r[i] == sorted[i] && r[j] == sorted[j]);
            } else if i < p && j == p {
                assert(r[i] == sorted[i]);
                if i < p - 1 {
                    assert(!digest_before(keys[sorted[p - 1]], keys[sorted[i]]));
                    lemma_digest_not_before(keys[x], keys[sorted[p - 1]], keys[sorted[i]]);
                }
            } else if i < p {
                assert(r[i] == sorted[i] && r[j] == sorted[j - 1]);
            } else if i == p {
                assert(r[j] == sorted[j - 1]);
                assert(digest_before(keys[x], keys[sorted[j - 1]]));
                lemma_digest_before_asymmetric(keys[x], keys[sorted[j - 1]]);
            } else {
                assert(r[i] == sorted[i - 1] && r[j] == sorted[j - 1]);
            }
        }
    }
}


/// Law: the digest holds each task once, and exactly the tasks whose
/// urgency the filter names (every task when the filter is empty).
pub proof fn lemma_digest_selects_by_urgency(tasks: Seq<TaskSummary>, filter: Seq<Urgency>, i: int)
    ensures
        digest_sort(keys_of(tasks), selected_indices(tasks, filter)).no_duplicates(),
        digest_sort(keys_of(tasks), selected_indices(tasks, filter)).contains(i) <==> (0 <= i < tasks.len() && (
        filter.len() == 0 || filter.contains(tasks[i].urgency))),
{
    lemma_selected_indices(tasks, filter);
    lemma_digest_sort_keeps(keys_of(tasks), selected_indices(tasks, filter));
    lemma_selected_indices_contains(tasks, filter);
    let sel = selected_indices(tasks, filter);
    assert(digest_sort(keys_of(tasks), sel).contains(i) <==> sel.contains(i));
    assert(sel.contains(i) <==> (0 <= i < tasks.len() && urgency_selected(filter, tasks[i].urgency)));
}

proof fn lemma_selected_indices_contains(tasks: Seq<TaskSummary>, filter: Seq<Urgency>)
    ensures
        forall|i: int|
            #[trigger] selected_indices(tasks, filter).contains(i) <==> (0 <= i < tasks.len() && urgency_selected(
                filter,
                tasks[i].urgency,
            )),
    decreases tasks.len(),
{
    if tasks.len() > 0 {
        let rest = tasks.drop_last();
        lemma_selected_indices_contains(rest, filter);
        let n = tasks.len() - 1;
        let r = selected_indices(tasks, filter);
        let rr = selected_indices(rest, filter);
        assert forall|i: int| r.contains(i) <==> (0 <= i < tasks.len() && urgency_selected(filter, tasks[i].urgency)) by {
            assert(rr.contains(i) <==> (0 <= i < rest.len() && urgency_selected(filter, rest[i].urgency)));
            if 0 <= i < rest.len() {
                assert(rest[i] == tasks[i]);
            }
            if urgency_selected(filter, tasks.last().urgency) {
                assert(r[rr.len() as int] == n);
                if r.contains(i) && i != n {
                    let k = choose|k: int| 0 <= k < r.len() && r[k] == i;
                    assert(rr[k] == i);
                }
                if rr.contains(i) {
                    let k = choose|k: int| 0 <= k < rr.len() && rr[k] == i;
                    assert(r[k] == i);
                }
            }
        }
    }
}

} // verus!

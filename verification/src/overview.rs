use vstd::prelude::*;

use crate::agents::AgentRunState;
use crate::chars::chars_of;
use crate::paths::chars_eq;
use crate::stable::{
    as_ints, filter_idx, filter_positions, lemma_filter_idx_contains, lemma_stable_sort_contains, positions_below,
    sort_positions, stable_sort, take_positions,
};
use crate::vocab::{task_urgency_rank, urgency_rank, TaskStatus, Urgency};

verus! {

/// What the project overview reads of a task.
pub struct OverviewTask {
    pub status: TaskStatus,
    pub urgency: Urgency,
    /// Creation time, in nanoseconds since the Unix epoch.
    pub created_at_nanos: i128,
    /// Time of the last update, in nanoseconds since the Unix epoch.
    pub updated_at_nanos: i128,
}

/// What the project overview reads of an agent run.
pub struct OverviewRun {
    pub project_id: String,
    pub state: AgentRunState,
    pub updated_at_nanos: i128,
}

pub open spec fn upto(n: int) -> Seq<int> {
    Seq::new(n as nat, |i: int| i)
}

/// Newest update first.
pub open spec fn task_newer(tasks: Seq<OverviewTask>) -> spec_fn(int, int) -> bool {
    |a: int, b: int| tasks[a].updated_at_nanos > tasks[b].updated_at_nanos
}

/// Most urgent first, then newest update first.
pub open spec fn ready_first(tasks: Seq<OverviewTask>) -> spec_fn(int, int) -> bool {
    |a: int, b: int|
        urgency_rank(tasks[a].urgency) < urgency_rank(tasks[b].urgency) || (urgency_rank(
            tasks[a].urgency,
        ) == urgency_rank(tasks[b].urgency) && tasks[a].updated_at_nanos > tasks[b].updated_at_nanos)
}

/// Newest update first.
pub open spec fn run_newer(runs: Seq<OverviewRun>) -> spec_fn(int, int) -> bool {
    |a: int, b: int| runs[a].updated_at_nanos > runs[b].updated_at_nanos
}

/// Whether a run of the project waits for a person: a question, a review or
/// a failure.
pub open spec fn needs_attention(r: OverviewRun, project_id: Seq<char>) -> bool {
    r.project_id@ == project_id && (r.state == AgentRunState::NeedsInput || r.state
        == AgentRunState::ReadyForReview || r.state == AgentRunState::Failed)
}

/// A day in nanoseconds.
pub open spec fn day_nanos() -> int {
    86_400_000_000_000
}

pub open spec fn clamp(v: Option<usize>, default: int, lo: int, hi: int) -> int {
    let x: int = match v {
        Some(x) => x as int,
        None => default,
    };
    if x < lo {
        lo
    } else if x > hi {
        hi
    } else {
        x
    }
}

/// The tallies of an overview.
pub struct OverviewCounts {
    pub open: usize,
    pub completed: usize,
    pub ready_now: usize,
    pub blocked: usize,
    pub stale: usize,
    pub created_in_period: usize,
    pub completed_updated_in_period: usize,
    pub agent_attention: usize,
}

/// What a project overview shows, as positions in its inputs.
pub struct ProjectOverviewPlan {
    /// Start of the period that "recent" refers to, in nanoseconds.
    pub period_started_at_nanos: i128,
    /// Open tasks not updated since then are stale.
    pub stale_before_nanos: i128,
    pub counts: OverviewCounts,
    /// Ready open tasks, most urgent first, at most `limit`.
    pub ready_now: Vec<usize>,
    /// Blocked open tasks, newest update first, at most `limit`.
    pub blocked: Vec<usize>,
    pub stale: Vec<usize>,
    pub created_recently: Vec<usize>,
    pub completed_recently: Vec<usize>,
    /// Runs that wait for a person, newest update first, at most `limit`.
    pub agent_attention: Vec<usize>,
    pub truncated_sections: Vec<&'static str>,
    pub suggested_tools: Vec<&'static str>,
}


pub open spec fn status_is(tasks: Seq<OverviewTask>, st: TaskStatus) -> spec_fn(int) -> bool {
    |i: int| tasks[i].status == st
}

pub open spec fn flag_is(flags: Seq<bool>, v: bool) -> spec_fn(int) -> bool {
    |i: int| flags[i] == v
}

pub open spec fn updated_before(tasks: Seq<OverviewTask>, t: i128) -> spec_fn(int) -> bool {
    |i: int| tasks[i].updated_at_nanos < t
}

pub open spec fn updated_since(tasks: Seq<OverviewTask>, t: i128) -> spec_fn(int) -> bool {
    |i: int| tasks[i].updated_at_nanos >= t
}

pub open spec fn created_since(tasks: Seq<OverviewTask>, t: i128) -> spec_fn(int) -> bool {
    |i: int| tasks[i].created_at_nanos >= t
}

pub open spec fn waits_for_person(runs: Seq<OverviewRun>, project_id: Seq<char>) -> spec_fn(int) -> bool {
    |i: int| needs_attention(runs[i], project_id)
}

pub open spec fn take_min(s: Seq<int>, n: int) -> Seq<int> {
    s.take(if n < s.len() { n } else { s.len() as int })
}

pub open spec fn str_list(v: Seq<&'static str>) -> Seq<Seq<char>> {
    v.map_values(|s: &'static str| s@)
}

pub open spec fn section_if(cond: bool, name: Seq<char>) -> Seq<Seq<char>> {
    if cond {
        seq![name]
    } else {
        Seq::empty()
    }
}

/// The open tasks, newest update first.
pub open spec fn overview_open(tasks: Seq<OverviewTask>) -> Seq<int> {
    filter_idx(stable_sort(task_newer(tasks), upto(tasks.len() as int)), status_is(tasks, TaskStatus::Open))
}

pub open spec fn overview_completed(tasks: Seq<OverviewTask>) -> Seq<int> {
    filter_idx(stable_sort(task_newer(tasks), upto(tasks.len() as int)), status_is(tasks, TaskStatus::Completed))
}

/// An overview of a project's tasks and agent runs at time `now_nanos`:
/// what is ready (most urgent first), blocked, stale, recent, and which runs
/// wait for a person; each list at most `limit` long (8 by default, within
/// 1..=20). `ready` tells, for each open task, whether it can start now.


fn push_if(v: &mut Vec<&'static str>, cond: bool, name: &'static str)
    ensures
        str_list(final(v)@) == str_list(old(v)@) + section_if(cond, name@),
{
    if cond {
        let ghost before = v@;
        v.push(name);
        assert(str_list(v@) == str_list(before).push(name@));
        assert(str_list(before) + seq![name@] == str_list(before).push(name@));
    } else {
        assert(str_list(v@) + Seq::<Seq<char>>::empty() == str_list(v@));
    }
}

fn truncated_sections_of(
    lim: usize,
    ready_now: usize,
    blocked: usize,
    stale: usize,
    created: usize,
    completed_recently: usize,
    attention: usize,
) -> (r: Vec<&'static str>)
    ensures
        str_list(r@) == section_if(ready_now > lim, "ready_now"@) + section_if(blocked > lim, "blocked"@)
            + section_if(stale > lim, "stale"@) + section_if(created > lim, "created_recently"@)
            + section_if(completed_recently > lim, "completed_recently"@) + section_if(
            attention > lim,
            "agent_attention"@,
        ),
{
    let mut v: Vec<&'static str> = Vec::new();
    assert(str_list(v@) == Seq::<Seq<char>>::empty());
    push_if(&mut v, ready_now > lim, "ready_now");
    push_if(&mut v, blocked > lim, "blocked");
    push_if(&mut v, stale > lim, "stale");
    push_if(&mut v, created > lim, "created_recently");
    push_if(&mut v, completed_recently > lim, "completed_recently");
    push_if(&mut v, attention > lim, "agent_attention");
    v
}

fn overview_tools(attention: usize, ready_now: usize) -> (r: Vec<&'static str>)
    ensures
        str_list(r@) == seq!["get_task_work_context"@] + section_if(attention > 0, "get_project_agent_queue"@)
            + section_if(ready_now > 0, "queue_project_for_agent"@),
{
    let mut v: Vec<&'static str> = vec!["get_task_work_context"];
    assert(str_list(v@) == seq!["get_task_work_context"@]);
    push_if(&mut v, attention > 0, "get_project_agent_queue");
    push_if(&mut v, ready_now > 0, "queue_project_for_agent");
    v
}

/// The task lists of an overview, in full.
pub struct TaskSections {
    pub open: Vec<usize>,
    pub completed: Vec<usize>,
    pub ready_now: Vec<usize>,
    pub blocked: Vec<usize>,
    pub stale: Vec<usize>,
    pub created: Vec<usize>,
    pub completed_recently: Vec<usize>,
}

fn task_sections(
    tasks: &Vec<OverviewTask>,
    ready: &Vec<bool>,
    period: i128,
    stale_before: i128,
) -> (r: TaskSections)
    requires
        ready@.len() == tasks@.len(),
    ensures
        ({
            let order = stable_sort(task_newer(tasks@), upto(tasks@.len() as int));
            let open = overview_open(tasks@);
            let completed = overview_completed(tasks@);
            &&& as_ints(r.open@) == open
            &&& as_ints(r.completed@) == completed
            &&& as_ints(r.ready_now@) == stable_sort(ready_first(tasks@), filter_idx(open, flag_is(ready@, true)))
            &&& as_ints(r.blocked@) == filter_idx(open, flag_is(ready@, false))
            &&& as_ints(r.stale@) == filter_idx(open, updated_before(tasks@, stale_before))
            &&& as_ints(r.created@) == filter_idx(order, created_since(tasks@, period))
            &&& as_ints(r.completed_recently@) == filter_idx(completed, updated_since(tasks@, period))
        }),
{
    let n = tasks.len();
    let all = positions_below(n);
    let order = sort_positions(
        &all,
        Ghost(task_newer(tasks@)),
        n,
        (|a: usize, b: usize| -> (r: bool)
            requires
                a < n && b < n,
                n == tasks@.len(),
            ensures
                r == task_newer(tasks@)(a as int, b as int),
            { tasks[a].updated_at_nanos > tasks[b].updated_at_nanos }),
    );
    let open = filter_positions(
        &order,
        Ghost(status_is(tasks@, TaskStatus::Open)),
        n,
        (|a: usize| -> (r: bool)
            requires
                a < n,
                n == tasks@.len(),
            ensures
                r == status_is(tasks@, TaskStatus::Open)(a as int),
            { tasks[a].status == TaskStatus::Open }),
    );
    let completed = filter_positions(
        &order,
        Ghost(status_is(tasks@, TaskStatus::Completed)),
        n,
        (|a: usize| -> (r: bool)
            requires
                a < n,
                n == tasks@.len(),
            ensures
                r == status_is(tasks@, TaskStatus::Completed)(a as int),
            { tasks[a].status == TaskStatus::Completed }),
    );
    let ready_open = filter_positions(
        &open,
        Ghost(flag_is(ready@, true)),
        n,
        (|a: usize| -> (r: bool)
            requires
                a < n,
                n == ready@.len(),
            ensures
                r == flag_is(ready@, true)(a as int),
            { ready[a] }),
    );
    let ready_now = sort_positions(
        &ready_open,
        Ghost(ready_first(tasks@)),
        n,
        (|a: usize, b: usize| -> (r: bool)
            requires
                a < n && b < n,
                n == tasks@.len(),
            ensures
                r == ready_first(tasks@)(a as int, b as int),
            {
                let ra = task_urgency_rank(&tasks[a].urgency);
                let rb = task_urgency_rank(&tasks[b].urgency);
                ra < rb || (ra == rb && tasks[a].updated_at_nanos > tasks[b].updated_at_nanos)
            }),
    );
    let blocked = filter_positions(
        &open,
        Ghost(flag_is(ready@, false)),
        n,
        (|a: usize| -> (r: bool)
            requires
                a < n,
                n == ready@.len(),
            ensures
                r == flag_is(ready@, false)(a as int),
            { !ready[a] }),
    );
    let stale = filter_positions(
        &open,
        Ghost(updated_before(tasks@, stale_before)),
        n,
        (|a: usize| -> (r: bool)
            requires
                a < n,
                n == tasks@.len(),
            ensures
                r == updated_before(tasks@, stale_before)(a as int),
            { tasks[a].updated_at_nanos < stale_before }),
    );
    let created = filter_positions(
        &order,
        Ghost(created_since(tasks@, period)),
        n,
        (|a: usize| -> (r: bool)
            requires
                a < n,
                n == tasks@.len(),
            ensures
                r == created_since(tasks@, period)(a as int),
            { tasks[a].created_at_nanos >= period }),
    );
    let completed_recently = filter_positions(
        &completed,
        Ghost(updated_since(tasks@, period)),
        n,
        (|a: usize| -> (r: bool)
            requires
                a < n,
                n == tasks@.len(),
            ensures
                r == updated_since(tasks@, period)(a as int),
            { tasks[a].updated_at_nanos >= period }),
    );
    assert(as_ints(all@) =~= upto(n as int));
    TaskSections { open, completed, ready_now, blocked, stale, created, completed_recently }
}

/// The runs of the project that wait for a person, newest update first.
fn attention_runs(project_id: &str, runs: &Vec<OverviewRun>) -> (r: Vec<usize>)
    ensures
        as_ints(r@) == stable_sort(run_newer(runs@), filter_idx(upto(runs@.len() as int), waits_for_person(runs@, project_id@))),
{
    let m = runs.len();
    let pid = chars_of(project_id);
    let all_runs = positions_below(m);
    let waiting = filter_positions(
        &all_runs,
        Ghost(waits_for_person(runs@, project_id@)),
        m,
        (|a: usize| -> (r: bool)
            requires
                a < m,
                m == runs@.len(),
                pid@ == project_id@,
            ensures
                r == waits_for_person(runs@, project_id@)(a as int),
            {
                let st = runs[a].state;
                chars_eq(&chars_of(runs[a].project_id.as_str()), &pid) && (st == AgentRunState::NeedsInput
                    || st == AgentRunState::ReadyForReview || st == AgentRunState::Failed)
            }),
    );
    let attention = sort_positions(
        &waiting,
        Ghost(run_newer(runs@)),
        m,
        (|a: usize, b: usize| -> (r: bool)
            requires
                a < m && b < m,
                m == runs@.len(),
            ensures
                r == run_newer(runs@)(a as int, b as int),
            { runs[a].updated_at_nanos > runs[b].updated_at_nanos }),
    );
    assert(as_ints(all_runs@) =~= upto(m as int));
    attention
}

pub fn project_overview(
    project_id: &str,
    tasks: &Vec<OverviewTask>,
    ready: &Vec<bool>,
    runs: &Vec<OverviewRun>,
    now_nanos: i128,
    days: Option<usize>,
    stale_after_days: Option<usize>,
    limit: Option<usize>,
) -> (r: ProjectOverviewPlan)
    requires
        ready@.len() == tasks@.len(),
        now_nanos >= i128::MIN + 180 * day_nanos(),
    ensures
        ({
            let order = stable_sort(task_newer(tasks@), upto(tasks@.len() as int));
            let open = overview_open(tasks@);
            let completed = overview_completed(tasks@);
            let ready_now = stable_sort(ready_first(tasks@), filter_idx(open, flag_is(ready@, true)));
            let blocked = filter_idx(open, flag_is(ready@, false));
            let period = now_nanos - clamp(days, 7, 1, 90) * day_nanos();
            let stale_before = now_nanos - clamp(stale_after_days, 14, 1, 180) * day_nanos();
            let stale = filter_idx(open, updated_before(tasks@, stale_before as i128));
            let created = filter_idx(order, created_since(tasks@, period as i128));
            let completed_recently = filter_idx(completed, updated_since(tasks@, period as i128));
            let attention = stable_sort(
                run_newer(runs@),
                filter_idx(upto(runs@.len() as int), waits_for_person(runs@, project_id@)),
            );
            let lim = clamp(limit, 8, 1, 20);
            &&& r.period_started_at_nanos == period
            &&& r.stale_before_nanos == stale_before
            &&& r.counts.open == open.len()
            &&& r.counts.completed == completed.len()
            &&& r.counts.ready_now == ready_now.len()
            &&& r.counts.blocked == blocked.len()
            &&& r.counts.stale == stale.len()
            &&& r.counts.created_in_period == created.len()
            &&& r.counts.completed_updated_in_period == completed_recently.len()
            &&& r.counts.agent_attention == attention.len()
            &&& as_ints(r.ready_now@) == take_min(ready_now, lim)
            &&& as_ints(r.blocked@) == take_min(blocked, lim)
            &&& as_ints(r.stale@) == take_min(stale, lim)
            &&& as_ints(r.created_recently@) == take_min(created, lim)
            &&& as_ints(r.completed_recently@) == take_min(completed_recently, lim)
            &&& as_ints(r.agent_attention@) == take_min(attention, lim)
            &&& str_list(r.truncated_sections@) == section_if(ready_now.len() > lim, "ready_now"@)
                + section_if(blocked.len() > lim, "blocked"@) + section_if(stale.len() > lim, "stale"@)
                + section_if(created.len() > lim, "created_recently"@) + section_if(
                completed_recently.len() > lim,
                "completed_recently"@,
            ) + section_if(attention.len() > lim, "agent_attention"@)
            &&& str_list(r.suggested_tools@) == seq!["get_task_work_context"@] + section_if(
                attention.len() > 0,
                "get_project_agent_queue"@,
            ) + section_if(ready_now.len() > 0, "queue_project_for_agent"@)
        }),
{
    let ghost order = stable_sort(task_newer(tasks@), upto(tasks@.len() as int));
    let d: i128 = match days {
        Some(x) => if x < 1 { 1 } else if x > 90 { 90 } else { x as i128 },
        None => 7,
    };
    let sd: i128 = match stale_after_days {
        Some(x) => if x < 1 { 1 } else if x > 180 { 180 } else { x as i128 },
        None => 14,
    };
    let period: i128 = now_nanos - d * 86_400_000_000_000;
    let stale_before: i128 = now_nanos - sd * 86_400_000_000_000;
    let sections = task_sections(tasks, ready, period, stale_before);
    let attention = attention_runs(project_id, runs);
    let ready_now = sections.ready_now;
    let blocked = sections.blocked;
    let stale = sections.stale;
    let created = sections.created;
    let completed_recently = sections.completed_recently;
    let open = sections.open;
    let completed = sections.completed;
    let lim: usize = match limit {
        Some(x) => if x < 1 { 1 } else if x > 20 { 20 } else { x },
        None => 8,
    };
    let truncated_sections = truncated_sections_of(
        lim,
        ready_now.len(),
        blocked.len(),
        stale.len(),
        created.len(),
        completed_recently.len(),
        attention.len(),
    );
    let suggested_tools = overview_tools(attention.len(), ready_now.len());
    ProjectOverviewPlan {
        period_started_at_nanos: period,
        stale_before_nanos: stale_before,
        counts: OverviewCounts {
            open: open.len(),
            completed: completed.len(),
            ready_now: ready_now.len(),
            blocked: blocked.len(),
            stale: stale.len(),
            created_in_period: created.len(),
            completed_updated_in_period: completed_recently.len(),
            agent_attention: attention.len(),
        },
        ready_now: take_positions(&ready_now, lim),
        blocked: take_positions(&blocked, lim),
        stale: take_positions(&stale, lim),
        created_recently: take_positions(&created, lim),
        completed_recently: take_positions(&completed_recently, lim),
        agent_attention: take_positions(&attention, lim),
        truncated_sections,
        suggested_tools,
    }
}


/// Law of the overview's task sections, over every task of the project: a
/// task is recently completed exactly when it is completed and was updated at
/// or after the start of the period, whatever its creation time; recently
/// created exactly when it was created at or after that start, whatever its
/// last update; stale exactly when it is open and was last updated before the
/// stale mark; ready now exactly when it is open and ready; blocked exactly
/// when it is open and not ready.
pub proof fn lemma_overview_sections(tasks: Seq<OverviewTask>, ready: Seq<bool>, period: i128, stale_before: i128, i: int)
    requires
        ready.len() == tasks.len(),
        0 <= i < tasks.len(),
    ensures
        filter_idx(overview_completed(tasks), updated_since(tasks, period)).contains(i) <==> (tasks[i].status
            == TaskStatus::Completed && tasks[i].updated_at_nanos >= period),
        filter_idx(stable_sort(task_newer(tasks), upto(tasks.len() as int)), created_since(tasks, period)).contains(i)
            <==> tasks[i].created_at_nanos >= period,
        filter_idx(overview_open(tasks), updated_before(tasks, stale_before)).contains(i) <==> (tasks[i].status
            == TaskStatus::Open && tasks[i].updated_at_nanos < stale_before),
        stable_sort(ready_first(tasks), filter_idx(overview_open(tasks), flag_is(ready, true))).contains(i) <==> (
        tasks[i].status == TaskStatus::Open && ready[i]),
        filter_idx(overview_open(tasks), flag_is(ready, false)).contains(i) <==> (tasks[i].status
            == TaskStatus::Open && !ready[i]),
{
    let all = upto(tasks.len() as int);
    assert(all.contains(i)) by {
        assert(all[i] == i);
    }
    let order = stable_sort(task_newer(tasks), all);
    lemma_stable_sort_contains(task_newer(tasks), all);
    assert(order.contains(i));
    let open = overview_open(tasks);
    let completed = overview_completed(tasks);
    lemma_filter_idx_contains(order, status_is(tasks, TaskStatus::Open));
    lemma_filter_idx_contains(order, status_is(tasks, TaskStatus::Completed));
    lemma_filter_idx_contains(completed, updated_since(tasks, period));
    lemma_filter_idx_contains(order, created_since(tasks, period));
    lemma_filter_idx_contains(open, updated_before(tasks, stale_before));
    lemma_filter_idx_contains(open, flag_is(ready, true));
    lemma_filter_idx_contains(open, flag_is(ready, false));
    lemma_stable_sort_contains(ready_first(tasks), filter_idx(open, flag_is(ready, true)));
    assert(open.contains(i) <==> tasks[i].status == TaskStatus::Open);
    assert(completed.contains(i) <==> tasks[i].status == TaskStatus::Completed);
    assert(filter_idx(completed, updated_since(tasks, period)).contains(i) <==> completed.contains(i) && updated_since(tasks, period)(i));
    assert(filter_idx(order, created_since(tasks, period)).contains(i) <==> order.contains(i) && created_since(tasks, period)(i));
    assert(filter_idx(open, updated_before(tasks, stale_before)).contains(i) <==> open.contains(i) && updated_before(tasks, stale_before)(i));
    assert(filter_idx(open, flag_is(ready, true)).contains(i) <==> open.contains(i) && flag_is(ready, true)(i));
    assert(filter_idx(open, flag_is(ready, false)).contains(i) <==> open.contains(i) && flag_is(ready, false)(i));
    assert(stable_sort(ready_first(tasks), filter_idx(open, flag_is(ready, true))).contains(i) <==> filter_idx(open, flag_is(ready, true)).contains(i));
}


/// Law: the runs listed as waiting for a person are exactly the project's
/// runs that wait for an answer, wait for review or failed.
pub proof fn lemma_attention_runs(runs: Seq<OverviewRun>, project_id: Seq<char>, i: int)
    requires
        0 <= i < runs.len(),
    ensures
        stable_sort(run_newer(runs), filter_idx(upto(runs.len() as int), waits_for_person(runs, project_id))).contains(i)
            <==> (runs[i].project_id@ == project_id && (runs[i].state == AgentRunState::NeedsInput || runs[i].state
            == AgentRunState::ReadyForReview || runs[i].state == AgentRunState::Failed)),
{
    let all = upto(runs.len() as int);
    assert(all[i] == i);
    lemma_filter_idx_contains(all, waits_for_person(runs, project_id));
    lemma_stable_sort_contains(run_newer(runs), filter_idx(all, waits_for_person(runs, project_id)));
    assert(filter_idx(all, waits_for_person(runs, project_id)).contains(i) <==> all.contains(i) && waits_for_person(
        runs,
        project_id,
    )(i));
}

} // verus!

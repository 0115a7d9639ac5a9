use vstd::prelude::*;
use vstd::utf8::encode_utf8;

use crate::chars::{chars_of, string_of};
use crate::hashing::{hex_lower, push_utf8, sha256, sha256_hex};
use crate::paths::{chars_eq, chars_starts_with, starts_with};
use crate::text::{chars_take, push_chars, push_str_chars, trim_chars, trim_ws};

verus! {

/// Where a local agent run stands.
#[derive(PartialEq, Eq, Structural, Clone, Copy, Debug)]
pub enum AgentRunState {
    Queued,
    Running,
    NeedsInput,
    ReadyForReview,
    Accepted,
    Failed,
    Cancelled,
    Interrupted,
}

/// Whether a run still needs the agent or a person: queued, running, waiting
/// for an answer or for review.
pub open spec fn unresolved(s: AgentRunState) -> bool {
    s == AgentRunState::Queued || s == AgentRunState::Running || s == AgentRunState::NeedsInput
        || s == AgentRunState::ReadyForReview
}

impl AgentRunState {
    pub fn is_unresolved(&self) -> (r: bool)
        ensures
            r == unresolved(*self),
    {
        match self {
            AgentRunState::Queued | AgentRunState::Running | AgentRunState::NeedsInput
            | AgentRunState::ReadyForReview => true,
            _ => false,
        }
    }
}

/// What the queue logic reads of an agent run.
pub struct AgentRunRef {
    pub project_id: String,
    pub task_id: String,
    pub request_id: Option<String>,
    pub state: AgentRunState,
    /// Creation time, in nanoseconds since the Unix epoch.
    pub created_at_nanos: i128,
}

/// Where a stable sort by creation time puts run `i` among the sorted `s`.
pub open spec fn time_position(runs: Seq<AgentRunRef>, s: Seq<int>, i: int) -> int
    decreases s.len(),
{
    if s.len() == 0 {
        0
    } else if runs[i].created_at_nanos < runs[s.last()].created_at_nanos {
        time_position(runs, s.drop_last(), i)
    } else {
        s.len() as int
    }
}

/// The runs at `idx`, oldest first, runs created at the same time kept in
/// their order (a stable sort by creation time).
pub open spec fn time_sort(runs: Seq<AgentRunRef>, idx: Seq<int>) -> Seq<int>
    decreases idx.len(),
{
    if idx.len() == 0 {
        idx
    } else {
        let sorted = time_sort(runs, idx.drop_last());
        sorted.insert(time_position(runs, sorted, idx.last()), idx.last())
    }
}

pub open spec fn ints(v: Seq<usize>) -> Seq<int> {
    v.map_values(|i: usize| i as int)
}

/// Inserts run `i` into `order`, kept sorted by creation time, after the
/// runs created no later.
fn insert_by_time(runs: &Vec<AgentRunRef>, order: &mut Vec<usize>, i: usize)
    requires
        i < runs@.len(),
        forall|j: int| 0 <= j < old(order)@.len() ==> (#[trigger] old(order)@[j]) < runs@.len(),
    ensures
        ints(final(order)@) == ints(old(order)@).insert(
            time_position(runs@, ints(old(order)@), i as int),
            i as int,
        ),
        forall|j: int| 0 <= j < final(order)@.len() ==> (#[trigger] final(order)@[j]) < runs@.len(),
{
    let ghost sorted = ints(order@);
    let mut p: usize = order.len();
    assert(sorted.take(p as int) == sorted);
    while p > 0
        invariant
            p <= order@.len(),
            sorted == ints(order@),
            i < runs@.len(),
            forall|j: int| 0 <= j < order@.len() ==> (#[trigger] order@[j]) < runs@.len(),
            time_position(runs@, sorted.take(p as int), i as int) == time_position(runs@, sorted, i as int),
        ensures
            p <= order@.len(),
            time_position(runs@, sorted.take(p as int), i as int) == time_position(runs@, sorted, i as int),
            p == 0 || !(runs@[i as int].created_at_nanos < runs@[sorted[p - 1]].created_at_nanos),
        decreases p,
    {
        let q = order[p - 1];
        assert(sorted.take(p as int).drop_last() == sorted.take(p - 1));
        assert(sorted.take(p as int).last() == q as int);
        if !(runs[i].created_at_nanos < runs[q].created_at_nanos) {
            break;
        }
        p = p - 1;
    }
    proof {
        if p > 0 {
            assert(sorted.take(p as int).last() == sorted[p - 1]);
        }
    }
    order.insert(p, i);
    assert(ints(order@) == sorted.insert(p as int, i as int));
}

/// How many runs of a listing are in each state.
pub struct AgentQueueStateCounts {
    pub queued: usize,
    pub running: usize,
    pub needs_input: usize,
    pub ready_for_review: usize,
    pub accepted: usize,
    pub failed: usize,
    pub cancelled: usize,
    pub interrupted: usize,
}

/// How many of the runs at `idx` are in state `s`.
pub open spec fn state_count(runs: Seq<AgentRunRef>, idx: Seq<int>, s: AgentRunState) -> nat
    decreases idx.len(),
{
    if idx.len() == 0 {
        0
    } else {
        state_count(runs, idx.drop_last(), s) + if runs[idx.last()].state == s { 1nat } else { 0nat }
    }
}

pub open spec fn counts_match(c: AgentQueueStateCounts, runs: Seq<AgentRunRef>, idx: Seq<int>) -> bool {
    &&& c.queued == state_count(runs, idx, AgentRunState::Queued)
    &&& c.running == state_count(runs, idx, AgentRunState::Running)
    &&& c.needs_input == state_count(runs, idx, AgentRunState::NeedsInput)
    &&& c.ready_for_review == state_count(runs, idx, AgentRunState::ReadyForReview)
    &&& c.accepted == state_count(runs, idx, AgentRunState::Accepted)
    &&& c.failed == state_count(runs, idx, AgentRunState::Failed)
    &&& c.cancelled == state_count(runs, idx, AgentRunState::Cancelled)
    &&& c.interrupted == state_count(runs, idx, AgentRunState::Interrupted)
}

/// Whether the run belongs to the listing: of the project, and unresolved
/// when only those are asked for.
pub open spec fn run_listed(r: AgentRunRef, project_id: Seq<char>, unresolved_only: bool) -> bool {
    r.project_id@ == project_id && (!unresolved_only || unresolved(r.state))
}

/// The positions of the listed runs, in input order.
pub open spec fn listed_runs(runs: Seq<AgentRunRef>, project_id: Seq<char>, unresolved_only: bool) -> Seq<int>
    decreases runs.len(),
{
    if runs.len() == 0 {
        Seq::empty()
    } else {
        let rest = listed_runs(runs.drop_last(), project_id, unresolved_only);
        if run_listed(runs.last(), project_id, unresolved_only) {
            rest.push(runs.len() - 1)
        } else {
            rest
        }
    }
}

/// The page size of the queue listing: the requested limit (20 by default)
/// within 1..=50.
pub open spec fn queue_listing_limit(limit: Option<usize>) -> int {
    let l: int = match limit {
        Some(l) => l as int,
        None => 20,
    };
    if l < 1 {
        1
    } else if l > 50 {
        50
    } else {
        l
    }
}

/// The tools that move a queue forward.
pub open spec fn queue_next_actions(c: AgentQueueStateCounts, total: nat) -> Seq<Seq<char>> {
    (if c.needs_input > 0 { seq!["answer_agent_run"@] } else { Seq::empty() })
        + (if c.ready_for_review > 0 { seq!["accept_agent_run"@] } else { Seq::empty() })
        + (if c.queued + c.running > 0 { seq!["get_project_agent_queue"@] } else { Seq::empty() })
        + (if total == 0 { seq!["queue_project_for_agent"@] } else { Seq::empty() })
}

pub open spec fn str_list(v: Seq<&'static str>) -> Seq<Seq<char>> {
    v.map_values(|s: &'static str| s@)
}

/// A page of a project's agent runs, oldest first.
pub struct AgentQueueListing {
    /// Positions in the input of the runs on this page.
    pub positions: Vec<usize>,
    pub total: usize,
    pub remaining: usize,
    /// States of all listed runs, not only of this page.
    pub states: AgentQueueStateCounts,
    pub next_actions: Vec<&'static str>,
}

fn count_states(runs: &Vec<AgentRunRef>, order: &Vec<usize>) -> (r: AgentQueueStateCounts)
    requires
        forall|j: int| 0 <= j < order@.len() ==> (#[trigger] order@[j]) < runs@.len(),
    ensures
        counts_match(r, runs@, ints(order@)),
{
    let ghost idx = ints(order@);
    let mut c = AgentQueueStateCounts {
        queued: 0,
        running: 0,
        needs_input: 0,
        ready_for_review: 0,
        accepted: 0,
        failed: 0,
        cancelled: 0,
        interrupted: 0,
    };
    let mut k: usize = 0;
    while k < order.len()
        invariant
            k <= order@.len(),
            idx == ints(order@),
            forall|j: int| 0 <= j < order@.len() ==> (#[trigger] order@[j]) < runs@.len(),
            counts_match(c, runs@, idx.take(k as int)),
            c.queued + c.running + c.needs_input + c.ready_for_review + c.accepted + c.failed
                + c.cancelled + c.interrupted == k,
        decreases order.len() - k,
    {
        assert(idx.take(k + 1).drop_last() == idx.take(k as int));
        assert(idx.take(k + 1).last() == order@[k as int] as int);
        match runs[order[k]].state {
            AgentRunState::Queued => c.queued = c.queued + 1,
            AgentRunState::Running => c.running = c.running + 1,
            AgentRunState::NeedsInput => c.needs_input = c.needs_input + 1,
            AgentRunState::ReadyForReview => c.ready_for_review = c.ready_for_review + 1,
            AgentRunState::Accepted => c.accepted = c.accepted + 1,
            AgentRunState::Failed => c.failed = c.failed + 1,
            AgentRunState::Cancelled => c.cancelled = c.cancelled + 1,
            AgentRunState::Interrupted => c.interrupted = c.interrupted + 1,
        }
        k = k + 1;
    }
    assert(idx.take(order@.len() as int) == idx);
    c
}

/// The agent runs of a project, oldest first, with the count of each state
/// and the tools that move the queue forward.
pub fn agent_queue_listing(
    project_id: &str,
    runs: &Vec<AgentRunRef>,
    unresolved_only: bool,
    limit: Option<usize>,
) -> (r: AgentQueueListing)
    ensures
        ({
            let order = time_sort(runs@, listed_runs(runs@, project_id@, unresolved_only));
            let shown = if queue_listing_limit(limit) < order.len() {
                queue_listing_limit(limit)
            } else {
                order.len() as int
            };
            &&& ints(r.positions@) == order.take(shown)
            &&& r.total == order.len()
            &&& r.remaining == order.len() - shown
            &&& counts_match(r.states, runs@, order)
            &&& str_list(r.next_actions@) == queue_next_actions(r.states, r.total as nat)
        }),
{
    let pid = chars_of(project_id);
    let mut order: Vec<usize> = Vec::new();
    let mut i: usize = 0;
    while i < runs.len()
        invariant
            i <= runs@.len(),
            pid@ == project_id@,
            ints(order@) == time_sort(runs@, listed_runs(runs@.take(i as int), project_id@, unresolved_only)),
            forall|j: int| 0 <= j < order@.len() ==> (#[trigger] order@[j]) < runs@.len(),
        decreases runs.len() - i,
    {
        assert(runs@.take(i + 1).drop_last() == runs@.take(i as int));
        assert(runs@.take(i + 1).last() == runs@[i as int]);
        let r = &runs[i];
        if chars_eq(&chars_of(r.project_id.as_str()), &pid) && (!unresolved_only || r.state.is_unresolved()) {
            insert_by_time(runs, &mut order, i);
            assert(listed_runs(runs@.take(i + 1), project_id@, unresolved_only).drop_last()
                == listed_runs(runs@.take(i as int), project_id@, unresolved_only));
        }
        i = i + 1;
    }
    assert(runs@.take(runs@.len() as int) == runs@);
    let states = count_states(runs, &order);
    let total = order.len();
    let lim: usize = match limit {
        Some(l) => if l < 1 { 1 } else if l > 50 { 50 } else { l },
        None => 20,
    };
    let shown = if lim < total { lim } else { total };
    let mut positions: Vec<usize> = Vec::new();
    let mut k: usize = 0;
    while k < shown
        invariant
            k <= shown <= order@.len(),
            ints(positions@) == ints(order@).take(k as int),
        decreases shown - k,
    {
        let ghost before = positions@;
        positions.push(order[k]);
        assert(ints(positions@) == ints(before).push(order@[k as int] as int));
        assert(ints(order@).take(k + 1) == ints(order@).take(k as int).push(ints(order@)[k as int]));
        k = k + 1;
    }
    let mut next_actions: Vec<&'static str> = Vec::new();
    if states.needs_input > 0 {
        next_actions.push("answer_agent_run");
    }
    if states.ready_for_review > 0 {
        next_actions.push("accept_agent_run");
    }
    if states.queued > 0 || states.running > 0 {
        next_actions.push("get_project_agent_queue");
    }
    if total == 0 {
        next_actions.push("queue_project_for_agent");
    }
    assert(str_list(next_actions@) == queue_next_actions(states, total as nat));
    AgentQueueListing { positions, total, remaining: total - shown, states, next_actions }
}

pub open spec fn msg_bad_queue_request_id() -> Seq<char> {
    "request_id обязателен и не должен превышать 200 символов"@
}

/// The request id of a project queue, trimmed: it must hold between 1 and
/// 200 characters.
pub fn queue_request_id(request_id: &str) -> (r: Result<String, String>)
    ensures
        ({
            let t = trim_ws(request_id@);
            match r {
                Ok(v) => 0 < t.len() <= 200 && v@ == t,
                Err(e) => !(0 < t.len() <= 200) && e@ == msg_bad_queue_request_id(),
            }
        }),
{
    let t = trim_chars(&chars_of(request_id));
    if t.len() == 0 || t.len() > 200 {
        return Err(String::from_str("request_id обязателен и не должен превышать 200 символов"));
    }
    Ok(string_of(&t))
}

/// How many tasks a project queue takes at most: the requested limit (5 by
/// default) within 1..=12.
pub fn agent_queue_limit(limit: Option<usize>) -> (r: usize)
    ensures
        r == ({
            let l: int = match limit {
                Some(l) => l as int,
                None => 5,
            };
            if l < 1 {
                1
            } else if l > 12 {
                12
            } else {
                l
            }
        }),
{
    match limit {
        Some(l) => if l < 1 { 1 } else if l > 12 { 12 } else { l },
        None => 5,
    }
}

/// The bytes whose digest names a project queue: a tag, the project id and
/// the request id, separated by zero bytes.
pub open spec fn queue_digest_input(project_id: Seq<char>, request_id: Seq<char>) -> Seq<u8> {
    encode_utf8("flood.project-agent-queue.v1"@) + seq![0u8] + encode_utf8(project_id) + seq![0u8]
        + encode_utf8(request_id)
}

/// The prefix of the request ids of the runs of one project queue: the first
/// 24 hexadecimal digits of the queue's digest.
pub open spec fn spec_queue_prefix(project_id: Seq<char>, request_id: Seq<char>) -> Seq<char> {
    "project-agent:"@ + hex_lower(sha256(queue_digest_input(project_id, request_id))).take(24) + ":"@
}

/// The prefix of the request ids of the runs that one project queue creates;
/// a repeated request finds its runs by it.
pub fn agent_queue_prefix(project_id: &str, request_id: &str) -> (r: String)
    ensures
        r@ == spec_queue_prefix(project_id@, request_id@),
{
    let mut bytes: Vec<u8> = Vec::new();
    push_utf8(&mut bytes, "flood.project-agent-queue.v1");
    bytes.push(0u8);
    push_utf8(&mut bytes, project_id);
    bytes.push(0u8);
    push_utf8(&mut bytes, request_id);
    assert(bytes@ == queue_digest_input(project_id@, request_id@));
    let digest = sha256_hex(&bytes);
    let hex = chars_of(digest.as_str());
    let head = chars_take(&hex, 0, 24);
    assert(head@ == hex@.take(24));
    let mut v: Vec<char> = Vec::new();
    push_str_chars(&mut v, "project-agent:");
    push_chars(&mut v, &head);
    push_str_chars(&mut v, ":");
    string_of(&v)
}

/// Whether the run belongs to the earlier batch of a queue request.
pub open spec fn in_batch(r: AgentRunRef, project_id: Seq<char>, prefix: Seq<char>) -> bool {
    r.project_id@ == project_id && match r.request_id {
        Some(id) => starts_with(id@, prefix),
        None => false,
    }
}

pub open spec fn batch_runs(runs: Seq<AgentRunRef>, project_id: Seq<char>, prefix: Seq<char>) -> Seq<int>
    decreases runs.len(),
{
    if runs.len() == 0 {
        Seq::empty()
    } else {
        let rest = batch_runs(runs.drop_last(), project_id, prefix);
        if in_batch(runs.last(), project_id, prefix) {
            rest.push(runs.len() - 1)
        } else {
            rest
        }
    }
}

/// The runs that an earlier identical queue request created, oldest first.
pub fn prior_batch(project_id: &str, runs: &Vec<AgentRunRef>, prefix: &str) -> (r: Vec<usize>)
    ensures
        ints(r@) == time_sort(runs@, batch_runs(runs@, project_id@, prefix@)),
{
    let pid = chars_of(project_id);
    let pre = chars_of(prefix);
    let mut order: Vec<usize> = Vec::new();
    let mut i: usize = 0;
    while i < runs.len()
        invariant
            i <= runs@.len(),
            pid@ == project_id@,
            pre@ == prefix@,
            ints(order@) == time_sort(runs@, batch_runs(runs@.take(i as int), project_id@, prefix@)),
            forall|j: int| 0 <= j < order@.len() ==> (#[trigger] order@[j]) < runs@.len(),
        decreases runs.len() - i,
    {
        assert(runs@.take(i + 1).drop_last() == runs@.take(i as int));
        assert(runs@.take(i + 1).last() == runs@[i as int]);
        let r = &runs[i];
        let member = chars_eq(&chars_of(r.project_id.as_str()), &pid) && match &r.request_id {
            Some(id) => chars_starts_with(&chars_of(id.as_str()), &pre),
            None => false,
        };
        if member {
            insert_by_time(runs, &mut order, i);
            assert(batch_runs(runs@.take(i + 1), project_id@, prefix@).drop_last() == batch_runs(
                runs@.take(i as int),
                project_id@,
                prefix@,
            ));
        }
        i = i + 1;
    }
    assert(runs@.take(runs@.len() as int) == runs@);
    order
}

/// Each run that a queue request created is in the batch that `prior_batch`
/// finds for its prefix, and that batch holds only runs of the project whose
/// request id starts with the prefix.
proof fn lemma_repeat_finds_first_batch(
    runs: Seq<AgentRunRef>,
    project_id: Seq<char>,
    prefix: Seq<char>,
    task_ids: Seq<Seq<char>>,
    created: Seq<int>,
)
    requires
        created.len() == task_ids.len(),
        forall|k: int|
            0 <= k < created.len() ==> {
                let c = #[trigger] created[k];
                &&& 0 <= c < runs.len()
                &&& runs[c].project_id@ == project_id
                &&& runs[c].request_id is Some
                &&& runs[c].request_id->0@ == prefix + task_ids[k]
            },
    ensures
        forall|k: int|
            0 <= k < created.len() ==> time_sort(runs, batch_runs(runs, project_id, prefix)).contains(
                #[trigger] created[k],
            ),
        forall|x: int|
            time_sort(runs, batch_runs(runs, project_id, prefix)).contains(x) ==> 0 <= x < runs.len()
                && in_batch(runs[x], project_id, prefix),
{
    let b = batch_runs(runs, project_id, prefix);
    lemma_batch_runs_members(runs, project_id, prefix);
    lemma_time_sort_keeps(runs, b);
    assert forall|k: int| 0 <= k < created.len() implies time_sort(runs, b).contains(#[trigger] created[k]) by {
        let c = created[k];
        assert((prefix + task_ids[k]).take(prefix.len() as int) == prefix);
        assert(in_batch(runs[c], project_id, prefix));
        assert(b.contains(c));
    }
    assert forall|x: int| time_sort(runs, b).contains(x) implies 0 <= x < runs.len() && in_batch(
        runs[x],
        project_id,
        prefix,
    ) by {
        assert(b.contains(x));
    }
}

proof fn lemma_batch_runs_members(runs: Seq<AgentRunRef>, project_id: Seq<char>, prefix: Seq<char>)
    ensures
        forall|x: int|
            #![trigger batch_runs(runs, project_id, prefix).contains(x)]
            #![trigger runs[x]]
            batch_runs(runs, project_id, prefix).contains(x) <==> 0 <= x < runs.len() && in_batch(
                runs[x],
                project_id,
                prefix,
            ),
    decreases runs.len(),
{
    if runs.len() > 0 {
        let rest = runs.drop_last();
        lemma_batch_runs_members(rest, project_id, prefix);
        let rb = batch_runs(rest, project_id, prefix);
        let b = batch_runs(runs, project_id, prefix);
        assert forall|x: int|
            #![trigger b.contains(x)]
            #![trigger runs[x]]
            b.contains(x) <==> 0 <= x < runs.len() && in_batch(runs[x], project_id, prefix) by {
            assert(rb.contains(x) <==> 0 <= x < rest.len() && in_batch(rest[x], project_id, prefix));
            if 0 <= x < rest.len() {
                assert(rest[x] == runs[x]);
            }
            if in_batch(runs.last(), project_id, prefix) {
                if b.contains(x) && x != runs.len() - 1 {
                    let k = choose|k: int| 0 <= k < b.len() && b[k] == x;
                    assert(k < rb.len());
                    assert(rb[k] == x);
                    assert(rb.contains(x));
                }
                if rb.contains(x) {
                    let k = choose|k: int| 0 <= k < rb.len() && rb[k] == x;
                    assert(b[k] == x);
                }
                if x == runs.len() - 1 {
                    assert(b[rb.len() as int] == x);
                }
            }
        }
    }
}

proof fn lemma_time_sort_keeps(runs: Seq<AgentRunRef>, idx: Seq<int>)
    ensures
        forall|x: int| time_sort(runs, idx).contains(x) <==> idx.contains(x),
    decreases idx.len(),
{
    if idx.len() > 0 {
        let rest = idx.drop_last();
        let x = idx.last();
        lemma_time_sort_keeps(runs, rest);
        let sorted = time_sort(runs, rest);
        let p = time_position(runs, sorted, x);
        lemma_time_position_bounds(runs, sorted, x);
        let r = sorted.insert(p, x);
        assert forall|y: int| r.contains(y) <==> idx.contains(y) by {
            if r.contains(y) {
                let k = choose|k: int| 0 <= k < r.len() && r[k] == y;
                if k == p {
                    assert(idx[idx.len() - 1] == y);
                } else {
                    let sk = if k < p { k } else { k - 1 };
                    assert(sorted[sk] == y);
                    assert(sorted.contains(y));
                    assert(rest.contains(y));
                    let m = choose|m: int| 0 <= m < rest.len() && rest[m] == y;
                    assert(idx[m] == y);
                }
            }
            if idx.contains(y) {
                let m = choose|m: int| 0 <= m < idx.len() && idx[m] == y;
                if m < idx.len() - 1 {
                    assert(rest[m] == y);
                    assert(rest.contains(y));
                    let k = choose|k: int| 0 <= k < sorted.len() && sorted[k] == y;
                    if k < p {
                        assert(r[k] == y);
                    } else {
                        assert(r[k + 1] == y);
                    }
                } else {
                    assert(r[p] == y);
                }
            }
        }
    }
}

proof fn lemma_time_position_bounds(runs: Seq<AgentRunRef>, s: Seq<int>, i: int)
    ensures
        0 <= time_position(runs, s, i) <= s.len(),
    decreases s.len(),
{
    if s.len() > 0 {
        lemma_time_position_bounds(runs, s.drop_last(), i);
    }
}

/// What a project queue request does.
pub enum ProjectQueueDecision {
    /// An earlier request with the same project and request id made these
    /// runs (positions in the run list, oldest first); nothing is queued.
    Repeated(Vec<usize>),
    /// A new batch.
    Fresh(AgentQueuePlan),
}

/// A project queue request: when runs of an earlier identical request exist
/// (found by the request's prefix), their batch, oldest first, and nothing
/// new; otherwise the plan of a new batch of at most `limit` ready tasks.
pub fn project_queue_decision(
    project_id: &str,
    request_id: &str,
    runs: &Vec<AgentRunRef>,
    tasks: &Vec<String>,
    ready: &Vec<bool>,
    limit: usize,
) -> (r: ProjectQueueDecision)
    requires
        ready@.len() == tasks@.len(),
    ensures
        ({
            let prefix = spec_queue_prefix(project_id@, request_id@);
            let batch = batch_runs(runs@, project_id@, prefix);
            match r {
                ProjectQueueDecision::Repeated(v) => batch.len() > 0 && ints(v@) == time_sort(runs@, batch),
                ProjectQueueDecision::Fresh(p) => batch.len() == 0 && spec_queue_plan(
                    tasks@,
                    runs@,
                    ready@,
                    limit,
                    prefix,
                    p,
                ),
            }
        }),
{
    let prefix = agent_queue_prefix(project_id, request_id);
    let prior = prior_batch(project_id, runs, prefix.as_str());
    proof {
        lemma_time_sort_len(runs@, batch_runs(runs@, project_id@, prefix@));
    }
    if prior.len() > 0 {
        ProjectQueueDecision::Repeated(prior)
    } else {
        ProjectQueueDecision::Fresh(plan_agent_queue(tasks, runs, ready, limit, prefix.as_str()))
    }
}

/// Law: repeating a project queue request returns the batch of the first
/// one. When the runs that the first request created (of its project, each
/// with the request's prefix and its task id as request id) are stored, and
/// no other run carries that prefix, a repeat of the request, whatever
/// tasks became ready since and whatever its limit, finds a batch, so it
/// queues nothing; the batch holds exactly the created runs, oldest first.
pub proof fn lemma_repeated_queue_request(
    project_id: Seq<char>,
    request_id: Seq<char>,
    runs: Seq<AgentRunRef>,
    task_ids: Seq<Seq<char>>,
    created: Seq<int>,
)
    requires
        created.len() > 0,
        created.len() == task_ids.len(),
        forall|k: int|
            0 <= k < created.len() ==> {
                let c = #[trigger] created[k];
                &&& 0 <= c < runs.len()
                &&& runs[c].project_id@ == project_id
                &&& runs[c].request_id is Some
                &&& runs[c].request_id->0@ == spec_queue_prefix(project_id, request_id) + task_ids[k]
            },
        forall|x: int|
            0 <= x < runs.len() && in_batch(#[trigger] runs[x], project_id, spec_queue_prefix(project_id, request_id))
                ==> created.contains(x),
    ensures
        ({
            let batch = batch_runs(runs, project_id, spec_queue_prefix(project_id, request_id));
            let order = time_sort(runs, batch);
            &&& batch.len() > 0
            &&& forall|x: int| order.contains(x) <==> created.contains(x)
            &&& forall|i: int, j: int|
                0 <= i < j < order.len() ==> runs[order[i]].created_at_nanos <= runs[order[j]].created_at_nanos
        }),
{
    let prefix = spec_queue_prefix(project_id, request_id);
    let batch = batch_runs(runs, project_id, prefix);
    lemma_repeat_finds_first_batch(runs, project_id, prefix, task_ids, created);
    lemma_batch_runs_members(runs, project_id, prefix);
    lemma_time_sort_keeps(runs, batch);
    lemma_time_sort_len(runs, batch);
    let order = time_sort(runs, batch);
    assert(order.contains(created[0]));
    assert forall|x: int| order.contains(x) <==> created.contains(x) by {
        if created.contains(x) {
            let k = choose|k: int| 0 <= k < created.len() && created[k] == x;
            assert(order.contains(created[k]));
        }
        if order.contains(x) {
            assert(batch.contains(x));
        }
    }
    assert forall|x: int| batch.contains(x) implies 0 <= x < runs.len() by {}
    lemma_time_sort_sorted(runs, batch);
}

proof fn lemma_time_sort_len(runs: Seq<AgentRunRef>, idx: Seq<int>)
    ensures
        time_sort(runs, idx).len() == idx.len(),
    decreases idx.len(),
{
    if idx.len() > 0 {
        lemma_time_sort_len(runs, idx.drop_last());
        lemma_time_position_bounds(runs, time_sort(runs, idx.drop_last()), idx.last());
    }
}

proof fn lemma_time_position_places(runs: Seq<AgentRunRef>, s: Seq<int>, x: int)
    ensures
        forall|k: int| time_position(runs, s, x) <= k < s.len() ==> runs[x].created_at_nanos < (
        #[trigger] runs[s[k]]).created_at_nanos,
        time_position(runs, s, x) > 0 ==> runs[s[time_position(runs, s, x) - 1]].created_at_nanos
            <= runs[x].created_at_nanos,
    decreases s.len(),
{
    if s.len() > 0 {
        let rest = s.drop_last();
        lemma_time_position_places(runs, rest, x);
        lemma_time_position_bounds(runs, rest, x);
        if runs[x].created_at_nanos < runs[s.last()].created_at_nanos {
            let p = time_position(runs, rest, x);
            assert forall|k: int| p <= k < s.len() implies runs[x].created_at_nanos < (
            #[trigger] runs[s[k]]).created_at_nanos by {
                if k < rest.len() {
                    assert(rest[k] == s[k]);
                }
            }
            if p > 0 {
                assert(rest[p - 1] == s[p - 1]);
            }
        }
    }
}

proof fn lemma_time_sort_sorted(runs: Seq<AgentRunRef>, idx: Seq<int>)
    ensures
        forall|i: int, j: int|
            0 <= i < j < time_sort(runs, idx).len() ==> (#[trigger] runs[time_sort(runs, idx)[i]]).created_at_nanos
                <= (#[trigger] runs[time_sort(runs, idx)[j]]).created_at_nanos,
    decreases idx.len(),
{
    if idx.len() > 0 {
        let rest = idx.drop_last();
        let x = idx.last();
        lemma_time_sort_sorted(runs, rest);
        let sorted = time_sort(runs, rest);
        let p = time_position(runs, sorted, x);
        lemma_time_position_bounds(runs, sorted, x);
        lemma_time_position_places(runs, sorted, x);
        let r = sorted.insert(p, x);
        assert forall|i: int, j: int| 0 <= i < j < r.len() implies (#[trigger] runs[r[i]]).created_at_nanos
            <= (#[trigger] runs[r[j]]).created_at_nanos by {
            if i < p && j < p {
                assert(r[i] == sorted[i] && r[j] == sorted[j]);
            } else if i < p && j == p {
                assert(r[i] == sorted[i]);
                assert(runs[sorted[i]].created_at_nanos <= runs[sorted[p - 1]].created_at_nanos);
            } else if i < p {
                assert(r[i] == sorted[i] && r[j] == sorted[j - 1]);
            } else if i == p {
                assert(r[j] == sorted[j - 1]);
                assert(runs[x].created_at_nanos < runs[sorted[j - 1]].created_at_nanos);
            } else {
                assert(r[i] == sorted[i - 1] && r[j] == sorted[j - 1]);
            }
        }
    }
}

/// Whether a run has finished: accepted, failed, cancelled or interrupted.
pub open spec fn run_finished(s: AgentRunState) -> bool {
    s == AgentRunState::Accepted || s == AgentRunState::Failed || s == AgentRunState::Cancelled || s
        == AgentRunState::Interrupted
}

/// Law: only a run that still needs the agent or a person holds its task. A
/// task whose runs have all finished (accepted, failed, cancelled or
/// interrupted) is not busy; a task with a queued, running, waiting or
/// in-review run is. So a new project queue considers a task, in order and
/// within its limit, exactly when it is ready and each of its runs has
/// finished.
pub proof fn lemma_finished_runs_free_the_task(
    tasks: Seq<String>,
    runs: Seq<AgentRunRef>,
    ready: Seq<bool>,
    task_id: Seq<char>,
    i: int,
)
    requires
        ready.len() == tasks.len(),
    ensures
        (forall|k: int| 0 <= k < runs.len() && (#[trigger] runs[k]).task_id@ == task_id ==> run_finished(
            runs[k].state,
        )) ==> !spec_task_busy(task_id, runs),
        (exists|k: int|
            0 <= k < runs.len() && (#[trigger] runs[k]).task_id@ == task_id && !run_finished(runs[k].state))
            ==> spec_task_busy(task_id, runs),
        ready_tasks(tasks, tasks.map_values(|t: String| spec_task_busy(t@, runs)), ready).contains(i) <==> (0 <= i
            < tasks.len() && ready[i] && forall|k: int|
            0 <= k < runs.len() && (#[trigger] runs[k]).task_id@ == tasks[i]@ ==> run_finished(runs[k].state)),
{
    let busy = tasks.map_values(|t: String| spec_task_busy(t@, runs));
    lemma_ready_tasks_contains(tasks, busy, ready);
    if 0 <= i < tasks.len() {
        assert(busy[i] == spec_task_busy(tasks[i]@, runs));
        if spec_task_busy(tasks[i]@, runs) {
            let k = choose|k: int| 0 <= k < runs.len() && (#[trigger] runs[k]).task_id@ == tasks[i]@ && unresolved(
                runs[k].state,
            );
            assert(!run_finished(runs[k].state));
        } else {
            assert forall|k: int| 0 <= k < runs.len() && (#[trigger] runs[k]).task_id@ == tasks[i]@ implies run_finished(
                runs[k].state,
            ) by {
                assert(!unresolved(runs[k].state));
            }
        }
    }
    if exists|k: int|
        0 <= k < runs.len() && (#[trigger] runs[k]).task_id@ == task_id && !run_finished(runs[k].state) {
        let k = choose|k: int|
            0 <= k < runs.len() && (#[trigger] runs[k]).task_id@ == task_id && !run_finished(runs[k].state);
        assert(unresolved(runs[k].state));
    }
}

proof fn lemma_ready_tasks_contains(tasks: Seq<String>, busy: Seq<bool>, ready: Seq<bool>)
    ensures
        forall|i: int|
            #[trigger] ready_tasks(tasks, busy, ready).contains(i) <==> (0 <= i < tasks.len() && !busy[i] && ready[i]),
    decreases tasks.len(),
{
    if tasks.len() > 0 {
        let rest = tasks.drop_last();
        lemma_ready_tasks_contains(rest, busy, ready);
        let n = tasks.len() - 1;
        let r = ready_tasks(tasks, busy, ready);
        let rr = ready_tasks(rest, busy, ready);
        assert forall|i: int| r.contains(i) <==> (0 <= i < tasks.len() && !busy[i] && ready[i]) by {
            assert(rr.contains(i) <==> (0 <= i < rest.len() && !busy[i] && ready[i]));
            if !busy[n] && ready[n] {
                assert(r[rr.len() as int] == n);
                if r.contains(i) && i != n {
                    let k = choose|k: int| 0 <= k < r.len() && r[k] == i;
                    assert(rr[k] == i);
                }
                if rr.contains(i) {
                    let k = choose|k: int| 0 <= k < rr.len() && rr[k] == i;
                    assert(r[k] == i);
                }
            }
        }
    }
}

/// Whether an unresolved run already works on the task.
pub open spec fn spec_task_busy(task_id: Seq<char>, runs: Seq<AgentRunRef>) -> bool {
    exists|k: int| 0 <= k < runs.len() && (#[trigger] runs[k]).task_id@ == task_id && unresolved(runs[k].state)
}

/// Whether an unresolved run already works on the task.
pub fn task_is_busy(task_id: &str, runs: &Vec<AgentRunRef>) -> (r: bool)
    ensures
        r == spec_task_busy(task_id@, runs@),
{
    let id = chars_of(task_id);
    let mut k: usize = 0;
    while k < runs.len()
        invariant
            k <= runs@.len(),
            id@ == task_id@,
            forall|m: int| 0 <= m < k ==> !((#[trigger] runs@[m]).task_id@ == task_id@ && unresolved(runs@[m].state)),
        decreases runs.len() - k,
    {
        if runs[k].state.is_unresolved() && chars_eq(&chars_of(runs[k].task_id.as_str()), &id) {
            assert(runs@[k as int].task_id@ == task_id@);
            return true;
        }
        k = k + 1;
    }
    false
}

/// Which tasks a new project queue takes.
pub struct AgentQueuePlan {
    /// Positions in the input of the tasks to queue, in order.
    pub selected: Vec<usize>,
    /// The request id of the run of each selected task.
    pub run_request_ids: Vec<String>,
    pub skipped_busy: usize,
    pub skipped_blocked: usize,
    /// Ready tasks left for a later queue.
    pub remaining_ready: usize,
}

/// The positions of the tasks that no run works on and that are ready.
pub open spec fn ready_tasks(tasks: Seq<String>, busy: Seq<bool>, ready: Seq<bool>) -> Seq<int>
    decreases tasks.len(),
{
    if tasks.len() == 0 {
        Seq::empty()
    } else {
        let n = tasks.len() - 1;
        let rest = ready_tasks(tasks.drop_last(), busy, ready);
        if !busy[n] && ready[n] {
            rest.push(n)
        } else {
            rest
        }
    }
}

pub open spec fn count_where(n: nat, pred: spec_fn(int) -> bool) -> nat
    decreases n,
{
    if n == 0 {
        0
    } else {
        count_where((n - 1) as nat, pred) + if pred(n - 1) { 1nat } else { 0nat }
    }
}

/// What `plan_agent_queue` gives: the ready tasks that no run works on, in
/// order, at most `limit` of them, each with the prefix and its task id as
/// request id, and the tallies of busy, blocked and left-over tasks.
pub open spec fn spec_queue_plan(
    tasks: Seq<String>,
    runs: Seq<AgentRunRef>,
    ready: Seq<bool>,
    limit: usize,
    prefix: Seq<char>,
    r: AgentQueuePlan,
) -> bool {
    let busy = tasks.map_values(|t: String| spec_task_busy(t@, runs));
    let avail = ready_tasks(tasks, busy, ready);
    let taken = if limit < avail.len() { limit as int } else { avail.len() as int };
    &&& ints(r.selected@) == avail.take(taken)
    &&& r.run_request_ids@.len() == taken
    &&& forall|k: int| 0 <= k < taken ==> (#[trigger] r.run_request_ids@[k])@ == prefix + tasks[avail[k]]@
    &&& r.skipped_busy == count_where(tasks.len(), |i: int| busy[i])
    &&& r.skipped_blocked == count_where(tasks.len(), |i: int| !busy[i] && !ready[i])
    &&& r.remaining_ready == avail.len() - taken
    &&& r.skipped_busy + r.skipped_blocked + r.selected@.len() + r.remaining_ready == tasks.len()
    &&& forall|k: int| 0 <= k < taken ==> starts_with((#[trigger] r.run_request_ids@[k])@, prefix)
}

/// Chooses the tasks of a new project queue, in order: a task that a run
/// already works on is skipped as busy, one that is not ready as blocked, and
/// at most `limit` of the rest are taken. `ready` is read only for the tasks
/// that are not busy.
pub fn plan_agent_queue(
    tasks: &Vec<String>,
    runs: &Vec<AgentRunRef>,
    ready: &Vec<bool>,
    limit: usize,
    prefix: &str,
) -> (r: AgentQueuePlan)
    requires
        ready@.len() == tasks@.len(),
    ensures
        spec_queue_plan(tasks@, runs@, ready@, limit, prefix@, r),
{
    let ghost busy = tasks@.map_values(|t: String| spec_task_busy(t@, runs@));
    let ghost pb = |i: int| busy[i];
    let ghost pk = |i: int| !busy[i] && !ready@[i];
    let mut avail: Vec<usize> = Vec::new();
    let mut skipped_busy: usize = 0;
    let mut skipped_blocked: usize = 0;
    let mut i: usize = 0;
    while i < tasks.len()
        invariant
            i <= tasks@.len(),
            ready@.len() == tasks@.len(),
            busy == tasks@.map_values(|t: String| spec_task_busy(t@, runs@)),
            pb == (|i: int| busy[i]),
            pk == (|i: int| !busy[i] && !ready@[i]),
            ints(avail@) == ready_tasks(tasks@.take(i as int), busy, ready@),
            forall|j: int| 0 <= j < avail@.len() ==> (#[trigger] avail@[j]) < i,
            skipped_busy == count_where(i as nat, pb),
            skipped_blocked == count_where(i as nat, pk),
            skipped_busy + skipped_blocked + avail@.len() == i,
        decreases tasks.len() - i,
    {
        assert(tasks@.take(i + 1).drop_last() == tasks@.take(i as int));
        assert(tasks@.take(i + 1).len() - 1 == i);
        assert(busy[i as int] == spec_task_busy(tasks@[i as int]@, runs@));
        if task_is_busy(tasks[i].as_str(), runs) {
            skipped_busy = skipped_busy + 1;
        } else if !ready[i] {
            skipped_blocked = skipped_blocked + 1;
        } else {
            let ghost before = avail@;
            avail.push(i);
            assert(ints(avail@) == ints(before).push(i as int));
        }
        i = i + 1;
    }
    assert(tasks@.take(tasks@.len() as int) == tasks@);
    let taken = if limit < avail.len() { limit } else { avail.len() };
    let mut selected: Vec<usize> = Vec::new();
    let mut run_request_ids: Vec<String> = Vec::new();
    let pre = chars_of(prefix);
    let mut k: usize = 0;
    while k < taken
        invariant
            k <= taken <= avail@.len(),
            pre@ == prefix@,
            forall|j: int| 0 <= j < avail@.len() ==> (#[trigger] avail@[j]) < tasks@.len(),
            ints(selected@) == ints(avail@).take(k as int),
            run_request_ids@.len() == k,
            forall|m: int|
                0 <= m < k ==> (#[trigger] run_request_ids@[m])@ == prefix@ + tasks@[avail@[m] as int]@,
        decreases taken - k,
    {
        let t = avail[k];
        let ghost before = selected@;
        selected.push(t);
        assert(ints(selected@) == ints(before).push(t as int));
        assert(ints(avail@).take(k + 1) == ints(avail@).take(k as int).push(ints(avail@)[k as int]));
        let mut v: Vec<char> = Vec::new();
        push_chars(&mut v, &pre);
        push_str_chars(&mut v, tasks[t].as_str());
        run_request_ids.push(string_of(&v));
        k = k + 1;
    }
    proof {
        assert forall|m: int| 0 <= m < taken implies starts_with((#[trigger] run_request_ids@[m])@, prefix@) by {
            assert((prefix@ + tasks@[avail@[m] as int]@).take(prefix@.len() as int) == prefix@);
        }
    }
    AgentQueuePlan {
        selected,
        run_request_ids,
        skipped_busy,
        skipped_blocked,
        remaining_ready: avail.len() - taken,
    }
}


pub open spec fn msg_task_closed() -> Seq<char> {
    "Завершённую или удалённую задачу нельзя передать агенту"@
}

/// What a blocked task's refusal lists: the compact titles of its blocking
/// tasks, then the ids of blockers that no longer exist; or a general
/// phrase where there are none.
pub open spec fn blocker_list(blocker_descriptions: Seq<Seq<char>>, missing_ids: Seq<Seq<char>>) -> Seq<char> {
    let names = blocker_descriptions.map_values(|d: Seq<char>| crate::text::spec_compact_task_title(d)) + missing_ids;
    if names.len() == 0 {
        "условия продолжения не выполнены"@
    } else {
        crate::text::join_str(names, ", "@)
    }
}

/// Whether a task can be handed to the local agent: not when completed or
/// in the trash, nor while it is blocked.
pub fn task_queue_check(
    completed: bool,
    trashed: bool,
    ready: bool,
    blocker_descriptions: &Vec<String>,
    missing_blocker_ids: &Vec<String>,
) -> (r: Result<(), String>)
    ensures
        match r {
            Ok(()) => !completed && !trashed && ready,
            Err(e) => if completed || trashed {
                e@ == msg_task_closed()
            } else {
                !ready && e@ == "Задача пока заблокирована: "@ + blocker_list(
                    crate::order::str_views(blocker_descriptions@),
                    crate::order::str_views(missing_blocker_ids@),
                )
            },
        },
{
    if completed || trashed {
        return Err(String::from_str("Завершённую или удалённую задачу нельзя передать агенту"));
    }
    if ready {
        return Ok(());
    }
    let ghost ds = crate::order::str_views(blocker_descriptions@);
    let mut names: Vec<String> = Vec::new();
    let mut i: usize = 0;
    while i < blocker_descriptions.len()
        invariant
            i <= blocker_descriptions@.len(),
            ds == crate::order::str_views(blocker_descriptions@),
            crate::order::str_views(names@) == ds.take(i as int).map_values(|d: Seq<char>| crate::text::spec_compact_task_title(d)),
        decreases blocker_descriptions.len() - i,
    {
        let ghost before = names@;
        names.push(crate::text::compact_task_title(blocker_descriptions[i].as_str()));
        assert(crate::order::str_views(names@) == crate::order::str_views(before).push(crate::text::spec_compact_task_title(ds[i as int])));
        assert(ds.take(i + 1) == ds.take(i as int).push(ds[i as int]));
        i = i + 1;
    }
    assert(ds.take(ds.len() as int) == ds);
    let ghost titled = crate::order::str_views(names@);
    let mut j: usize = 0;
    while j < missing_blocker_ids.len()
        invariant
            j <= missing_blocker_ids@.len(),
            crate::order::str_views(names@) == titled + crate::order::str_views(missing_blocker_ids@).take(j as int),
        decreases missing_blocker_ids.len() - j,
    {
        let ghost before = names@;
        names.push(missing_blocker_ids[j].clone());
        assert(crate::order::str_views(names@) == crate::order::str_views(before).push(missing_blocker_ids@[j as int]@));
        assert(crate::order::str_views(missing_blocker_ids@).take(j + 1) == crate::order::str_views(missing_blocker_ids@).take(j as int).push(missing_blocker_ids@[j as int]@));
        j = j + 1;
    }
    assert(crate::order::str_views(missing_blocker_ids@).take(missing_blocker_ids@.len() as int) == crate::order::str_views(missing_blocker_ids@));
    let mut v: Vec<char> = Vec::new();
    push_str_chars(&mut v, "Задача пока заблокирована: ");
    if names.len() == 0 {
        push_str_chars(&mut v, "условия продолжения не выполнены");
    } else {
        let joined = crate::text::join_exec(&names, ", ");
        push_chars(&mut v, &joined);
    }
    Err(string_of(&v))
}

/// The request id of the agent run that creating a task with `request_id`
/// asks for.
pub fn task_create_agent_request_id(request_id: &str) -> (r: String)
    ensures
        r@ == "task-create-agent:"@ + request_id@,
{
    let mut v: Vec<char> = Vec::new();
    push_str_chars(&mut v, "task-create-agent:");
    push_str_chars(&mut v, request_id);
    string_of(&v)
}

pub open spec fn msg_run_bound_elsewhere() -> Seq<char> {
    "request_id запуска уже связан с другой задачей"@
}

/// Whether creating a task reuses the agent run already made under the same
/// run request id: yes when that run is for the created task, an error when
/// it is for another task, and no when there is none.
pub fn reuse_agent_run(existing_run_task_id: Option<&str>, task_id: &str) -> (r: Result<bool, String>)
    ensures
        match existing_run_task_id {
            Some(t) => if t@ == task_id@ {
                r == Ok::<bool, String>(true)
            } else {
                r is Err && r->Err_0@ == msg_run_bound_elsewhere()
            },
            None => r == Ok::<bool, String>(false),
        },
{
    match existing_run_task_id {
        Some(t) => {
            if chars_eq(&chars_of(t), &chars_of(task_id)) {
                Ok(true)
            } else {
                Err(String::from_str("request_id запуска уже связан с другой задачей"))
            }
        },
        None => Ok(false),
    }
}

} // verus!

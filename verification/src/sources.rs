use vstd::prelude::*;

use crate::chars::{chars_of, string_of};
use crate::stable::{as_ints, filter_idx, filter_positions, positions_below, sort_positions, stable_sort, take_positions};
use crate::text::{trim_chars, trim_ws};
use crate::agents::{unresolved, AgentRunState};

verus! {

/// The kind of a resource that a project links to.
#[derive(PartialEq, Eq, Structural, Clone, Copy, Debug)]
pub enum ProjectResourceKind {
    Repository,
    Directory,
    Skill,
    Figma,
    Documentation,
    Website,
    Other,
}

/// What the tools read of a project resource.
pub struct ResourceFacts {
    pub id: String,
    pub label: String,
    pub kind: ProjectResourceKind,
    pub location: String,
    pub agent_access: bool,
    /// Whether it is a repository whose location is a GitHub repository URL.
    pub is_github: bool,
}

/// How an agent reaches a resource, and what it should do next.
pub struct ResourceAccess {
    pub resource_id: String,
    pub access_method: &'static str,
    pub access_granted: bool,
    pub requires_explicit_access: bool,
    pub next_step: &'static str,
}

/// Whether the local resource reader serves the kind: repositories,
/// directories and skills.
pub open spec fn locally_readable(k: ProjectResourceKind) -> bool {
    k == ProjectResourceKind::Repository || k == ProjectResourceKind::Directory || k == ProjectResourceKind::Skill
}

pub open spec fn spec_access_method(r: ResourceFacts) -> Seq<char> {
    if r.is_github {
        "flood_github_connector"@
    } else if locally_readable(r.kind) {
        "flood_local_resource_reader"@
    } else if r.kind == ProjectResourceKind::Figma {
        "figma_connector"@
    } else if r.kind == ProjectResourceKind::Documentation || r.kind == ProjectResourceKind::Website {
        "browser_or_connector"@
    } else {
        "client_connector"@
    }
}

pub open spec fn spec_next_step(r: ResourceFacts) -> Seq<char> {
    if !r.agent_access {
        "Доступ не разрешён: попросите пользователя включить его в окне «Контекст проекта»"@
    } else if r.is_github {
        "GitHub-репозиторий разрешён пользователем; используйте get_github_repository_context, list_github_repository_files, search_github_repository или read_github_repository_file"@
    } else if locally_readable(r.kind) {
        "Источник разрешён пользователем; используйте list_project_resource_files, search_project_resource или read_project_resource_file"@
    } else if r.kind == ProjectResourceKind::Figma {
        "Источник разрешён пользователем; откройте адрес настроенным Figma-коннектором"@
    } else if r.kind == ProjectResourceKind::Documentation || r.kind == ProjectResourceKind::Website {
        "Источник разрешён пользователем; откройте адрес браузером или подходящим коннектором"@
    } else {
        "Источник разрешён пользователем; выберите подходящий инструмент MCP-клиента"@
    }
}

fn readable_kind(k: ProjectResourceKind) -> (r: bool)
    ensures
        r == locally_readable(k),
{
    match k {
        ProjectResourceKind::Repository | ProjectResourceKind::Directory | ProjectResourceKind::Skill => true,
        _ => false,
    }
}

/// How an agent reaches the resource: the GitHub connector, the local reader,
/// or a connector of the client; and what to do next, or that the user must
/// grant access first.
pub fn project_resource_access(r: &ResourceFacts) -> (a: ResourceAccess)
    ensures
        a.resource_id@ == r.id@,
        a.access_method@ == spec_access_method(*r),
        a.next_step@ == spec_next_step(*r),
        a.access_granted == r.agent_access,
        a.requires_explicit_access == !r.agent_access,
{
    let access_method = if r.is_github {
        "flood_github_connector"
    } else if readable_kind(r.kind) {
        "flood_local_resource_reader"
    } else if r.kind == ProjectResourceKind::Figma {
        "figma_connector"
    } else if r.kind == ProjectResourceKind::Documentation || r.kind == ProjectResourceKind::Website {
        "browser_or_connector"
    } else {
        "client_connector"
    };
    let next_step = if !r.agent_access {
        "Доступ не разрешён: попросите пользователя включить его в окне «Контекст проекта»"
    } else if r.is_github {
        "GitHub-репозиторий разрешён пользователем; используйте get_github_repository_context, list_github_repository_files, search_github_repository или read_github_repository_file"
    } else if readable_kind(r.kind) {
        "Источник разрешён пользователем; используйте list_project_resource_files, search_project_resource или read_project_resource_file"
    } else if r.kind == ProjectResourceKind::Figma {
        "Источник разрешён пользователем; откройте адрес настроенным Figma-коннектором"
    } else if r.kind == ProjectResourceKind::Documentation || r.kind == ProjectResourceKind::Website {
        "Источник разрешён пользователем; откройте адрес браузером или подходящим коннектором"
    } else {
        "Источник разрешён пользователем; выберите подходящий инструмент MCP-клиента"
    };
    ResourceAccess {
        resource_id: r.id.clone(),
        access_method,
        access_granted: r.agent_access,
        requires_explicit_access: !r.agent_access,
        next_step,
    }
}

/// Whether the agent may read some resource with the local reader.
pub open spec fn spec_local_reader_available(rs: Seq<ResourceFacts>) -> bool {
    exists|i: int| 0 <= i < rs.len() && (#[trigger] rs[i]).agent_access && locally_readable(rs[i].kind) && !rs[i].is_github
}

/// Whether the agent may read some GitHub repository of the project.
pub open spec fn spec_github_available(rs: Seq<ResourceFacts>) -> bool {
    exists|i: int| 0 <= i < rs.len() && (#[trigger] rs[i]).agent_access && rs[i].is_github
}

pub fn local_reader_available(rs: &Vec<ResourceFacts>) -> (r: bool)
    ensures
        r == spec_local_reader_available(rs@),
{
    let mut i: usize = 0;
    while i < rs.len()
        invariant
            i <= rs@.len(),
            forall|j: int| 0 <= j < i ==> !((#[trigger] rs@[j]).agent_access && locally_readable(rs@[j].kind) && !rs@[j].is_github),
        decreases rs.len() - i,
    {
        if rs[i].agent_access && readable_kind(rs[i].kind) && !rs[i].is_github {
            assert(rs@[i as int].agent_access);
            return true;
        }
        i = i + 1;
    }
    false
}

pub fn github_available(rs: &Vec<ResourceFacts>) -> (r: bool)
    ensures
        r == spec_github_available(rs@),
{
    let mut i: usize = 0;
    while i < rs.len()
        invariant
            i <= rs@.len(),
            forall|j: int| 0 <= j < i ==> !((#[trigger] rs@[j]).agent_access && rs@[j].is_github),
        decreases rs.len() - i,
    {
        if rs[i].agent_access && rs[i].is_github {
            assert(rs@[i as int].agent_access);
            return true;
        }
        i = i + 1;
    }
    false
}

/// Whether a local repository or directory of the project may host local
/// Git work: the agent may read it and its location, trimmed, is an absolute
/// path.
pub open spec fn local_git_resource(r: ResourceFacts) -> bool {
    &&& r.agent_access
    &&& (r.kind == ProjectResourceKind::Repository || r.kind == ProjectResourceKind::Directory)
    &&& !r.is_github
    &&& trim_ws(r.location@).len() > 0
    &&& trim_ws(r.location@)[0] == '/'
}

/// A local repository of the project for Git context.
pub struct LocalGitResource {
    pub resource_id: String,
    pub label: String,
    /// The trimmed location.
    pub path: String,
}

pub open spec fn local_git_positions(rs: Seq<ResourceFacts>) -> Seq<int>
    decreases rs.len(),
{
    if rs.len() == 0 {
        Seq::empty()
    } else {
        let rest = local_git_positions(rs.drop_last());
        if local_git_resource(rs.last()) {
            rest.push(rs.len() - 1)
        } else {
            rest
        }
    }
}

fn is_local_git_resource(r: &ResourceFacts) -> (b: bool)
    ensures
        b == local_git_resource(*r),
{
    if !r.agent_access || r.is_github {
        return false;
    }
    match r.kind {
        ProjectResourceKind::Repository | ProjectResourceKind::Directory => {},
        _ => return false,
    }
    let t = trim_chars(&chars_of(r.location.as_str()));
    t.len() > 0 && t[0] == '/'
}

/// The project's local repositories and directories for Git context: the
/// first four that qualify, in order.
pub fn detect_task_local_git_resources(rs: &Vec<ResourceFacts>) -> (r: Vec<LocalGitResource>)
    ensures
        ({
            let ps = local_git_positions(rs@);
            let n = if ps.len() < 4 { ps.len() as int } else { 4 };
            &&& r@.len() == n
            &&& forall|k: int| 0 <= k < n ==> {
                let src = rs@[ps[k]];
                &&& (#[trigger] r@[k]).resource_id@ == src.id@
                &&& r@[k].label@ == src.label@
                &&& r@[k].path@ == trim_ws(src.location@)
            }
        }),
{
    let mut out: Vec<LocalGitResource> = Vec::new();
    let mut i: usize = 0;
    let ghost all = local_git_positions(rs@);
    while i < rs.len()
        invariant
            i <= rs@.len(),
            out@.len() <= 4,
            all == local_git_positions(rs@),
            out@.len() == if local_git_positions(rs@.take(i as int)).len() < 4 {
                local_git_positions(rs@.take(i as int)).len() as int
            } else {
                4
            },
            forall|k: int| 0 <= k < out@.len() ==> 0 <= #[trigger] local_git_positions(rs@.take(i as int))[k] < i,
            forall|k: int| 0 <= k < out@.len() ==> {
                let src = rs@[local_git_positions(rs@.take(i as int))[k]];
                &&& (#[trigger] out@[k]).resource_id@ == src.id@
                &&& out@[k].label@ == src.label@
                &&& out@[k].path@ == trim_ws(src.location@)
            },
        decreases rs.len() - i,
    {
        let ghost pre = local_git_positions(rs@.take(i as int));
        assert(rs@.take(i + 1).drop_last() == rs@.take(i as int));
        assert(rs@.take(i + 1).last() == rs@[i as int]);
        let ghost post = local_git_positions(rs@.take(i + 1));
        if is_local_git_resource(&rs[i]) {
            if out.len() < 4 {
                let t = trim_chars(&chars_of(rs[i].location.as_str()));
                out.push(LocalGitResource {
                    resource_id: rs[i].id.clone(),
                    label: rs[i].label.clone(),
                    path: string_of(&t),
                });
            }
            assert(post == pre.push(i as int));
        } else {
            assert(post == pre);
        }
        i = i + 1;
    }
    proof {
        assert(rs@.take(rs@.len() as int) == rs@);
        lemma_positions_prefix(rs@, rs@.len() as int);
    }
    out
}

proof fn lemma_positions_prefix(rs: Seq<ResourceFacts>, n: int)
    requires
        0 <= n <= rs.len(),
    ensures
        local_git_positions(rs.take(n)).len() <= n,
    decreases n,
{
    if n > 0 {
        assert(rs.take(n).drop_last() == rs.take(n - 1));
        lemma_positions_prefix(rs, n - 1);
    }
}

/// The directories where the agent could run for the project, in order:
/// each local repository or directory that qualifies for Git context.
pub fn agent_directory_candidates(rs: &Vec<ResourceFacts>) -> (r: Vec<usize>)
    ensures
        as_ints(r@) == local_git_positions(rs@),
{
    let mut out: Vec<usize> = Vec::new();
    let mut i: usize = 0;
    while i < rs.len()
        invariant
            i <= rs@.len(),
            as_ints(out@) == local_git_positions(rs@.take(i as int)),
        decreases rs.len() - i,
    {
        assert(rs@.take(i + 1).drop_last() == rs@.take(i as int));
        assert(rs@.take(i + 1).last() == rs@[i as int]);
        if is_local_git_resource(&rs[i]) {
            let ghost before = out@;
            out.push(i);
            assert(as_ints(out@) == as_ints(before).push(i as int));
        }
        i = i + 1;
    }
    assert(rs@.take(rs@.len() as int) == rs@);
    out
}

pub open spec fn str_list(v: Seq<&'static str>) -> Seq<Seq<char>> {
    v.map_values(|s: &'static str| s@)
}

pub open spec fn tool_if(cond: bool, names: Seq<Seq<char>>) -> Seq<Seq<char>> {
    if cond {
        names
    } else {
        Seq::empty()
    }
}

fn push1(v: &mut Vec<&'static str>, cond: bool, a: &'static str)
    ensures
        str_list(final(v)@) == str_list(old(v)@) + tool_if(cond, seq![a@]),
{
    let ghost start = str_list(v@);
    if cond {
        v.push(a);
        assert(str_list(v@) =~= start + seq![a@]);
    } else {
        assert(str_list(v@) =~= start + Seq::<Seq<char>>::empty());
    }
}

fn push2(v: &mut Vec<&'static str>, cond: bool, a: &'static str, b: &'static str)
    ensures
        str_list(final(v)@) == str_list(old(v)@) + tool_if(cond, seq![a@, b@]),
{
    let ghost start = str_list(v@);
    if cond {
        v.push(a);
        v.push(b);
        assert(str_list(v@) =~= start + seq![a@, b@]);
    } else {
        assert(str_list(v@) =~= start + Seq::<Seq<char>>::empty());
    }
}

fn push3(v: &mut Vec<&'static str>, cond: bool, a: &'static str, b: &'static str, c: &'static str)
    ensures
        str_list(final(v)@) == str_list(old(v)@) + tool_if(cond, seq![a@, b@, c@]),
{
    let ghost start = str_list(v@);
    if cond {
        v.push(a);
        v.push(b);
        v.push(c);
        assert(str_list(v@) =~= start + seq![a@, b@, c@]);
    } else {
        assert(str_list(v@) =~= start + Seq::<Seq<char>>::empty());
    }
}

/// What the project brief suggests next.
pub open spec fn spec_brief_tools(
    context_blank: bool,
    no_resources: bool,
    chats_linked: bool,
    fresh: bool,
    sync_pending: bool,
    unprocessed: bool,
    open_tasks: bool,
    local_reader: bool,
    github: bool,
    memory_truncated: bool,
) -> Seq<Seq<char>> {
    tool_if(context_blank, seq!["update_project_context"@]) + tool_if(no_resources, seq!["set_project_resources"@])
        + tool_if(chats_linked && !fresh && !sync_pending, seq!["request_telegram_sync"@]) + tool_if(
        unprocessed,
        seq!["get_project_triage_context"@],
    ) + tool_if(open_tasks, seq!["get_task_work_context"@]) + tool_if(
        local_reader,
        seq!["list_project_resource_files"@, "search_project_resource"@],
    ) + tool_if(github, seq!["get_github_repository_context"@, "search_github_repository"@]) + tool_if(
        memory_truncated,
        seq!["list_project_memory"@],
    ) + seq!["create_task_from_telegram_discussion"@]
}

/// A chat linked to a project, as the brief counts its messages.
pub struct ChatCounts {
    /// Messages that the agent has not processed, when known.
    pub agent_unprocessed_count: Option<usize>,
    pub message_count: usize,
}

pub open spec fn spec_has_unprocessed(chats: Seq<ChatCounts>) -> bool {
    exists|i: int| 0 <= i < chats.len() && match (#[trigger] chats[i]).agent_unprocessed_count {
        Some(n) => n > 0,
        None => chats[i].message_count > 0,
    }
}

/// The tools that the project brief suggests: fill in the context or the
/// resources when missing, sync a stale Telegram cache, triage unprocessed
/// messages, work on open tasks, read the project's sources, page through
/// its memory, and create tasks from discussions.
pub fn brief_tools(
    context: &str,
    resources: &Vec<ResourceFacts>,
    chats: &Vec<ChatCounts>,
    fresh: bool,
    sync_pending: bool,
    open_tasks: bool,
    memory_truncated: bool,
) -> (r: Vec<&'static str>)
    ensures
        str_list(r@) == spec_brief_tools(
            trim_ws(context@).len() == 0,
            resources@.len() == 0,
            chats@.len() > 0,
            fresh,
            sync_pending,
            spec_has_unprocessed(chats@),
            open_tasks,
            spec_local_reader_available(resources@),
            spec_github_available(resources@),
            memory_truncated,
        ),
{
    let blank = trim_chars(&chars_of(context)).len() == 0;
    let mut unprocessed = false;
    let mut i: usize = 0;
    while i < chats.len()
        invariant
            i <= chats@.len(),
            !unprocessed ==> forall|j: int| 0 <= j < i ==> !(match (#[trigger] chats@[j]).agent_unprocessed_count {
                Some(n) => n > 0,
                None => chats@[j].message_count > 0,
            }),
            unprocessed ==> spec_has_unprocessed(chats@),
        decreases chats.len() - i,
    {
        let more = match chats[i].agent_unprocessed_count {
            Some(n) => n > 0,
            None => chats[i].message_count > 0,
        };
        if more {
            assert(match chats@[i as int].agent_unprocessed_count {
                Some(n) => n > 0,
                None => chats@[i as int].message_count > 0,
            });
            unprocessed = true;
        }
        i = i + 1;
    }
    let local = local_reader_available(resources);
    let gh = github_available(resources);
    let mut v: Vec<&'static str> = Vec::new();
    assert(str_list(v@) == Seq::<Seq<char>>::empty());
    push1(&mut v, blank, "update_project_context");
    push1(&mut v, resources.len() == 0, "set_project_resources");
    push1(&mut v, chats.len() > 0 && !fresh && !sync_pending, "request_telegram_sync");
    push1(&mut v, unprocessed, "get_project_triage_context");
    push1(&mut v, open_tasks, "get_task_work_context");
    push2(&mut v, local, "list_project_resource_files", "search_project_resource");
    push2(&mut v, gh, "get_github_repository_context", "search_github_repository");
    push1(&mut v, memory_truncated, "list_project_memory");
    push1(&mut v, true, "create_task_from_telegram_discussion");
    v
}

/// What the task's work context suggests next.
pub open spec fn spec_task_work_tools(
    latest_run: Option<AgentRunState>,
    local_reader: bool,
    github: bool,
    github_refs: bool,
    local_git: bool,
    telegram_media: bool,
    telegram_snapshot: bool,
    queueable: bool,
    memory_truncated: bool,
) -> Seq<Seq<char>> {
    let blocks = match latest_run {
        Some(s) => unresolved(s),
        None => false,
    };
    tool_if(local_git, seq!["get_task_local_git_context"@]) + tool_if(github_refs, seq!["get_task_github_context"@])
        + seq!["append_task_checkpoint"@] + tool_if(blocks, seq!["get_agent_run"@]) + tool_if(
        latest_run == Some(AgentRunState::ReadyForReview),
        seq!["accept_agent_run"@],
    ) + tool_if(latest_run == Some(AgentRunState::NeedsInput), seq!["answer_agent_run"@]) + tool_if(
        !blocks && local_reader,
        seq!["search_project_resource"@, "read_project_resource_file"@],
    ) + tool_if(
        github,
        seq!["get_github_repository_context"@, "search_github_repository"@, "read_github_repository_file"@],
    ) + tool_if(telegram_media, seq!["request_telegram_image"@]) + tool_if(
        telegram_snapshot,
        seq!["request_telegram_sync"@, "read_telegram_message_context"@],
    ) + tool_if(queueable, seq!["queue_task_for_agent"@]) + tool_if(memory_truncated, seq!["list_project_memory"@])
}

/// The tools that a task's work context suggests: its local Git and GitHub
/// context first when it has them, a checkpoint, the state of its agent run,
/// the project's sources while no run holds the task, media and a fresh sync
/// for its Telegram source, a queue for the agent when a local directory is
/// open to it and the task is ready, and the rest of the project memory.
pub fn task_work_tools(
    latest_run: Option<AgentRunState>,
    resources: &Vec<ResourceFacts>,
    github_refs: bool,
    telegram_media: bool,
    telegram_snapshot: bool,
    task_ready: bool,
    memory_truncated: bool,
) -> (r: Vec<&'static str>)
    ensures
        str_list(r@) == spec_task_work_tools(
            latest_run,
            spec_local_reader_available(resources@),
            spec_github_available(resources@),
            github_refs,
            local_git_positions(resources@).len() > 0,
            telegram_media,
            telegram_snapshot,
            local_git_positions(resources@).len() > 0 && task_ready,
            memory_truncated,
        ),
{
    let blocks = match latest_run {
        Some(s) => s.is_unresolved(),
        None => false,
    };
    let local = local_reader_available(resources);
    let gh = github_available(resources);
    let dirs = agent_directory_candidates(resources);
    let has_dirs = dirs.len() > 0;
    let mut v: Vec<&'static str> = Vec::new();
    assert(str_list(v@) == Seq::<Seq<char>>::empty());
    push1(&mut v, has_dirs, "get_task_local_git_context");
    push1(&mut v, github_refs, "get_task_github_context");
    push1(&mut v, true, "append_task_checkpoint");
    push1(&mut v, blocks, "get_agent_run");
    push1(&mut v, latest_run == Some(AgentRunState::ReadyForReview), "accept_agent_run");
    push1(&mut v, latest_run == Some(AgentRunState::NeedsInput), "answer_agent_run");
    push2(&mut v, !blocks && local, "search_project_resource", "read_project_resource_file");
    push3(&mut v, gh, "get_github_repository_context", "search_github_repository", "read_github_repository_file");
    push1(&mut v, telegram_media, "request_telegram_image");
    push2(&mut v, telegram_snapshot, "request_telegram_sync", "read_telegram_message_context");
    push1(&mut v, has_dirs && task_ready, "queue_task_for_agent");
    push1(&mut v, memory_truncated, "list_project_memory");
    v
}

/// What the memory digest reads of a memory entry.
pub struct MemoryEntryFacts {
    pub active: bool,
    pub pinned: bool,
    pub created_at_nanos: i128,
    pub updated_at_nanos: Option<i128>,
}

pub open spec fn touched_at(e: MemoryEntryFacts) -> i128 {
    match e.updated_at_nanos {
        Some(t) => t,
        None => e.created_at_nanos,
    }
}

/// Pinned first, then the latest change first.
pub open spec fn memory_before(es: Seq<MemoryEntryFacts>) -> spec_fn(int, int) -> bool {
    |a: int, b: int| (es[a].pinned && !es[b].pinned) || (es[a].pinned == es[b].pinned && touched_at(es[a]) > touched_at(es[b]))
}

pub open spec fn is_active(es: Seq<MemoryEntryFacts>) -> spec_fn(int) -> bool {
    |i: int| es[i].active
}

/// The memory a project shows: the active entries, pinned first and then
/// the latest changed, at most `limit`; and whether some were left out.
pub fn compact_active_project_memory(entries: &Vec<MemoryEntryFacts>, limit: usize) -> (r: (Vec<usize>, bool))
    ensures
        ({
            let kept = stable_sort(memory_before(entries@), filter_idx(Seq::new(entries@.len(), |i: int| i), is_active(entries@)));
            &&& as_ints(r.0@) == kept.take(if limit < kept.len() { limit as int } else { kept.len() as int })
            &&& r.1 == (kept.len() > limit)
        }),
{
    let n = entries.len();
    let all = positions_below(n);
    let active = filter_positions(
        &all,
        Ghost(is_active(entries@)),
        n,
        (|a: usize| -> (r: bool)
            requires
                a < n,
                n == entries@.len(),
            ensures
                r == is_active(entries@)(a as int),
            { entries[a].active }),
    );
    let sorted = sort_positions(
        &active,
        Ghost(memory_before(entries@)),
        n,
        (|a: usize, b: usize| -> (r: bool)
            requires
                a < n && b < n,
                n == entries@.len(),
            ensures
                r == memory_before(entries@)(a as int, b as int),
            {
                let x = &entries[a];
                let y = &entries[b];
                let tx = match x.updated_at_nanos {
                    Some(t) => t,
                    None => x.created_at_nanos,
                };
                let ty = match y.updated_at_nanos {
                    Some(t) => t,
                    None => y.created_at_nanos,
                };
                (x.pinned && !y.pinned) || (x.pinned == y.pinned && tx > ty)
            }),
    );
    assert(as_ints(all@) =~= Seq::new(entries@.len(), |i: int| i));
    let truncated = sorted.len() > limit;
    (take_positions(&sorted, limit), truncated)
}


/// A resource as a tool call sets it: everything but the agent's access,
/// which only the user grants.
pub struct ProjectResourceInput {
    pub id: String,
    pub kind: ProjectResourceKind,
    pub label: String,
    pub location: String,
    pub notes: Option<String>,
}

/// A resource of a project, with the agent's access to it.
pub struct ProjectResource {
    pub id: String,
    pub kind: ProjectResourceKind,
    pub label: String,
    pub location: String,
    pub notes: Option<String>,
    pub agent_access: bool,
}

/// Whether the current resource `c` is the one `r` names: same id, same kind
/// and same trimmed location.
pub open spec fn same_resource(c: ResourceFacts, r: ProjectResourceInput) -> bool {
    c.id@ == r.id@ && c.kind == r.kind && trim_ws(c.location@) == trim_ws(r.location@)
}

/// The first current resource that `r` names, if any.
pub open spec fn first_same(current: Seq<ResourceFacts>, r: ProjectResourceInput) -> int
    decreases current.len(),
{
    if current.len() == 0 {
        -1
    } else if same_resource(current[0], r) {
        0
    } else {
        let k = first_same(current.drop_first(), r);
        if k < 0 { -1 } else { k + 1 }
    }
}

proof fn lemma_first_same(current: Seq<ResourceFacts>, r: ProjectResourceInput)
    ensures
        -1 <= first_same(current, r) < current.len(),
        first_same(current, r) >= 0 ==> same_resource(current[first_same(current, r)], r),
        forall|i: int| 0 <= i < first_same(current, r) ==> !same_resource(#[trigger] current[i], r),
        first_same(current, r) < 0 ==> forall|i: int| 0 <= i < current.len() ==> !same_resource(#[trigger] current[i], r),
    decreases current.len(),
{
    if current.len() > 0 && !same_resource(current[0], r) {
        lemma_first_same(current.drop_first(), r);
        let k = first_same(current.drop_first(), r);
        if k < 0 {
            assert forall|i: int| 0 <= i < current.len() implies !same_resource(#[trigger] current[i], r) by {
                if i > 0 {
                    assert(current[i] == current.drop_first()[i - 1]);
                }
            }
        } else {
            assert(current[k + 1] == current.drop_first()[k]);
            assert forall|i: int| 0 <= i < k + 1 implies !same_resource(#[trigger] current[i], r) by {
                if i > 0 {
                    assert(current[i] == current.drop_first()[i - 1]);
                }
            }
        }
    }
}

/// The agent keeps its access to a resource that a tool call sets only where
/// the first current resource with the same id, kind and location had it.
pub open spec fn kept_access(current: Seq<ResourceFacts>, r: ProjectResourceInput) -> bool {
    first_same(current, r) >= 0 && current[first_same(current, r)].agent_access
}

fn trimmed_eq(a: &String, b: &String) -> (r: bool)
    ensures
        r == (trim_ws(a@) == trim_ws(b@)),
{
    crate::paths::chars_eq(&trim_chars(&chars_of(a.as_str())), &trim_chars(&chars_of(b.as_str())))
}

/// The resources that a tool call sets, with the agent's access carried
/// over from the current resources: MCP can neither grant access nor keep
/// it for a resource it moved elsewhere or gave another kind.
pub fn project_resources_for_update(current: &Vec<ResourceFacts>, requested: Vec<ProjectResourceInput>) -> (r: Vec<ProjectResource>)
    ensures
        r@.len() == requested@.len(),
        forall|i: int| 0 <= i < requested@.len() ==> {
            let x = #[trigger] r@[i];
            let q = requested@[i];
            &&& x.id == q.id && x.kind == q.kind && x.label == q.label && x.location == q.location && x.notes == q.notes
            &&& x.agent_access == kept_access(current@, q)
            &&& x.agent_access ==> exists|j: int| 0 <= j < current@.len() && #[trigger] same_resource(current@[j], q) && current@[j].agent_access
        },
{
    let ghost orig = requested@;
    let mut rest = requested;
    let mut out: Vec<ProjectResource> = Vec::new();
    while rest.len() > 0
        invariant
            out@.len() + rest@.len() == orig.len(),
            rest@ == orig.skip(out@.len() as int),
            forall|i: int| 0 <= i < out@.len() ==> {
                let x = #[trigger] out@[i];
                let q = orig[i];
                &&& x.id == q.id && x.kind == q.kind && x.label == q.label && x.location == q.location && x.notes == q.notes
                &&& x.agent_access == kept_access(current@, q)
                &&& x.agent_access ==> exists|j: int| 0 <= j < current@.len() && #[trigger] same_resource(current@[j], q) && current@[j].agent_access
            },
        decreases rest.len(),
    {
        let ghost k = out@.len() as int;
        let q = rest.remove(0);
        assert(q == orig[k]);
        proof {
            lemma_first_same(current@, q);
        }
        let mut access = false;
        let mut j: usize = 0;
        while j < current.len()
            invariant_except_break
                forall|t: int| 0 <= t < j ==> !same_resource(#[trigger] current@[t], q),
                !access,
            invariant
                j <= current@.len(),
                -1 <= first_same(current@, q) < current@.len(),
                first_same(current@, q) >= 0 ==> same_resource(current@[first_same(current@, q)], q),
            ensures
                access == kept_access(current@, q),
            decreases current.len() - j,
        {
            let c = &current[j];
            if c.id.eq(&q.id) && c.kind == q.kind && trimmed_eq(&c.location, &q.location) {
                proof {
                    lemma_first_same(current@, q);
                    let f = first_same(current@, q);
                    assert(f >= 0);
                    if f < j {
                        assert(!same_resource(current@[f], q));
                    }
                    if f > j {
                        assert(!same_resource(current@[j as int], q));
                    }
                }
                access = c.agent_access;
                break;
            }
            j = j + 1;
        }
        proof {
            lemma_first_same(current@, q);
        }
        assert(access == kept_access(current@, q));
        let ProjectResourceInput { id, kind, label, location, notes } = q;
        out.push(ProjectResource { id, kind, label, location, notes, agent_access: access });
        assert(rest@ == orig.skip(k + 1));
    }
    out
}


/// A project memory entry as the memory listing reads it.
pub struct ProjectMemoryEntry {
    pub text: String,
    pub active: bool,
    pub pinned: bool,
    pub created_at_nanos: i128,
    pub updated_at_nanos: Option<i128>,
}

pub open spec fn entry_touched(e: ProjectMemoryEntry) -> i128 {
    match e.updated_at_nanos {
        Some(t) => t,
        None => e.created_at_nanos,
    }
}

/// Whether the listing shows an entry: active ones, superseded ones too
/// when asked, and only those whose lowercase text holds the query.
pub open spec fn memory_listed(es: Seq<ProjectMemoryEntry>, include_superseded: bool, query: Option<Seq<char>>) -> spec_fn(int) -> bool {
    |i: int| (include_superseded || es[i].active) && match query {
        Some(q) => crate::git::seq_contains(crate::unicode::lowercase(es[i].text@), q),
        None => true,
    }
}

/// Pinned first, then active before superseded, then the latest change
/// first.
pub open spec fn listing_before(es: Seq<ProjectMemoryEntry>) -> spec_fn(int, int) -> bool {
    |a: int, b: int| {
        (es[a].pinned && !es[b].pinned) || (es[a].pinned == es[b].pinned && (
            (es[a].active && !es[b].active) || (es[a].active == es[b].active && entry_touched(es[a]) > entry_touched(es[b]))))
    }
}

pub open spec fn msg_bad_memory_query() -> Seq<char> {
    "Поиск по памяти должен содержать от 2 до 200 символов"@
}

/// The query of a memory listing: none when blank, else the trimmed text in
/// lowercase, of 2 to 200 characters.
pub open spec fn memory_query(query: Option<Seq<char>>) -> Option<Seq<char>> {
    match query {
        Some(q) => if trim_ws(q).len() > 0 { Some(crate::unicode::lowercase(trim_ws(q))) } else { None },
        None => None,
    }
}

pub open spec fn memory_query_ok(query: Option<Seq<char>>) -> bool {
    match query {
        Some(q) => trim_ws(q).len() == 0 || (2 <= trim_ws(q).len() <= 200),
        None => true,
    }
}

/// The project memory as `list_project_memory` shows it: the positions of
/// the listed entries in order, at most `limit` (30 by default, between 1
/// and 100); how many were listed before the cut; and whether some were
/// cut. A query of the wrong length is refused.
pub fn project_memory_listing(
    entries: &Vec<ProjectMemoryEntry>,
    include_superseded: bool,
    query: Option<&str>,
    limit: Option<usize>,
) -> (r: Result<(Vec<usize>, usize, bool), String>)
    ensures
        ({
            let q = match query { Some(x) => Some(x@), None => None };
            match r {
                Err(e) => !memory_query_ok(q) && e@ == msg_bad_memory_query(),
                Ok((page, total, truncated)) => {
                    let listed = stable_sort(
                        listing_before(entries@),
                        filter_idx(Seq::new(entries@.len(), |i: int| i), memory_listed(entries@, include_superseded, memory_query(q))),
                    );
                    let lim = crate::walk::clamp(match limit { Some(x) => x as int, None => 30 }, 1, 100);
                    &&& memory_query_ok(q)
                    &&& total == listed.len()
                    &&& as_ints(page@) == listed.take(if lim < listed.len() { lim } else { listed.len() as int })
                    &&& truncated == (listed.len() > lim)
                }
            }
        }),
{
    let ghost q = match query { Some(x) => Some(x@), None => None };
    let query_lower: Option<Vec<char>> = match query {
        Some(x) => {
            let t = trim_chars(&chars_of(x));
            if t.len() == 0 {
                None
            } else if t.len() < 2 || t.len() > 200 {
                return Err(String::from_str("Поиск по памяти должен содержать от 2 до 200 символов"));
            } else {
                let lower = crate::unicode::to_lowercase(string_of(&t).as_str());
                Some(chars_of(lower.as_str()))
            }
        },
        None => None,
    };
    let ghost mq = memory_query(q);
    assert(match query_lower { Some(v) => mq == Some(v@), None => mq is None });
    let n = entries.len();
    let all = positions_below(n);
    let kept = filter_positions(
        &all,
        Ghost(memory_listed(entries@, include_superseded, mq)),
        n,
        (|a: usize| -> (r: bool)
            requires
                a < n,
                n == entries@.len(),
                match query_lower { Some(v) => mq == Some(v@), None => mq is None },
            ensures
                r == memory_listed(entries@, include_superseded, mq)(a as int),
            {
                let e = &entries[a];
                if !(include_superseded || e.active) {
                    false
                } else {
                    match &query_lower {
                        Some(v) => {
                            let lower = crate::unicode::to_lowercase(e.text.as_str());
                            crate::git::chars_contains(&chars_of(lower.as_str()), v)
                        },
                        None => true,
                    }
                }
            }),
    );
    let sorted = sort_positions(
        &kept,
        Ghost(listing_before(entries@)),
        n,
        (|a: usize, b: usize| -> (r: bool)
            requires
                a < n && b < n,
                n == entries@.len(),
            ensures
                r == listing_before(entries@)(a as int, b as int),
            {
                let x = &entries[a];
                let y = &entries[b];
                let tx = match x.updated_at_nanos {
                    Some(t) => t,
                    None => x.created_at_nanos,
                };
                let ty = match y.updated_at_nanos {
                    Some(t) => t,
                    None => y.created_at_nanos,
                };
                (x.pinned && !y.pinned) || (x.pinned == y.pinned && ((x.active && !y.active) || (x.active == y.active && tx > ty)))
            }),
    );
    assert(as_ints(all@) =~= Seq::new(entries@.len(), |i: int| i));
    let lim: usize = match limit {
        Some(x) => if x < 1 { 1 } else if x > 100 { 100 } else { x },
        None => 30,
    };
    let total = sorted.len();
    proof {
        crate::stable::lemma_stable_sort_len(listing_before(entries@), as_ints(kept@));
    }
    Ok((take_positions(&sorted, lim), total, total > lim))
}


pub open spec fn msg_resource_not_found() -> Seq<char> {
    "Источник проекта не найден"@
}

/// The first resource of the project with the id `id`.
pub open spec fn resource_with_id(rs: Seq<ResourceFacts>, id: Seq<char>) -> int
    decreases rs.len(),
{
    if rs.len() == 0 {
        -1
    } else if rs[0].id@ == id {
        0
    } else {
        let k = resource_with_id(rs.drop_first(), id);
        if k < 0 { -1 } else { k + 1 }
    }
}

proof fn lemma_resource_with_id(rs: Seq<ResourceFacts>, id: Seq<char>)
    ensures
        -1 <= resource_with_id(rs, id) < rs.len(),
        resource_with_id(rs, id) >= 0 ==> rs[resource_with_id(rs, id)].id@ == id,
        forall|i: int| 0 <= i < resource_with_id(rs, id) ==> rs[i].id@ != id,
        resource_with_id(rs, id) < 0 ==> forall|i: int| 0 <= i < rs.len() ==> rs[i].id@ != id,
    decreases rs.len(),
{
    if rs.len() > 0 && rs[0].id@ != id {
        lemma_resource_with_id(rs.drop_first(), id);
        assert forall|i: int| 0 < i < rs.len() implies rs[i] == rs.drop_first()[i - 1] by {}
    }
}

/// The position of the project's resource with the id `id`, or the error
/// that it is not found.
pub fn find_project_resource(resources: &Vec<ResourceFacts>, id: &str) -> (r: Result<usize, String>)
    ensures
        match r {
            Ok(k) => resource_with_id(resources@, id@) == k,
            Err(e) => resource_with_id(resources@, id@) < 0 && e@ == msg_resource_not_found(),
        },
{
    proof {
        lemma_resource_with_id(resources@, id@);
    }
    let idc = chars_of(id);
    let mut i: usize = 0;
    while i < resources.len()
        invariant
            i <= resources@.len(),
            idc@ == id@,
            forall|t: int| 0 <= t < i ==> resources@[t].id@ != id@,
            -1 <= resource_with_id(resources@, id@) < resources@.len(),
            resource_with_id(resources@, id@) >= 0 ==> resources@[resource_with_id(resources@, id@)].id@ == id@,
            forall|t: int| 0 <= t < resource_with_id(resources@, id@) ==> resources@[t].id@ != id@,
            resource_with_id(resources@, id@) < 0 ==> forall|t: int| 0 <= t < resources@.len() ==> resources@[t].id@ != id@,
        decreases resources.len() - i,
    {
        if crate::paths::chars_eq(&chars_of(resources[i].id.as_str()), &idc) {
            proof {
                let f = resource_with_id(resources@, id@);
                if f < 0 || f > i {
                    assert(resources@[i as int].id@ == id@);
                }
                if f >= 0 && f < i {
                    assert(resources@[f].id@ != id@);
                }
            }
            return Ok(i);
        }
        i = i + 1;
    }
    Err(String::from_str("Источник проекта не найден"))
}

pub open spec fn msg_local_kind() -> Seq<char> {
    "Этот коннектор поддерживает repository, directory и skill"@
}

pub open spec fn msg_local_access_off() -> Seq<char> {
    "Доступ агента выключен; включите его для источника в окне «Контекст проекта»"@
}

pub open spec fn msg_absolute_path() -> Seq<char> {
    "Для локального источника требуется абсолютный путь"@
}

/// Whether the local reader may open a resource, before it touches the
/// disk: a repository, directory or skill, with agent access, at an
/// absolute location (on Unix, one that starts with `/` once trimmed); the
/// errors in that order.
pub fn local_resource_authorization(resource: &ResourceFacts) -> (r: Result<(), String>)
    ensures
        match r {
            Ok(()) => locally_readable(resource.kind) && resource.agent_access && trim_ws(resource.location@).len() > 0
                && trim_ws(resource.location@)[0] == '/',
            Err(e) => if !locally_readable(resource.kind) {
                e@ == msg_local_kind()
            } else if !resource.agent_access {
                e@ == msg_local_access_off()
            } else {
                !(trim_ws(resource.location@).len() > 0 && trim_ws(resource.location@)[0] == '/') && e@ == msg_absolute_path()
            },
        },
{
    match resource.kind {
        ProjectResourceKind::Repository | ProjectResourceKind::Directory | ProjectResourceKind::Skill => {},
        _ => {
            return Err(String::from_str("Этот коннектор поддерживает repository, directory и skill"));
        },
    }
    if !resource.agent_access {
        return Err(String::from_str("Доступ агента выключен; включите его для источника в окне «Контекст проекта»"));
    }
    let loc = trim_chars(&chars_of(resource.location.as_str()));
    if loc.len() == 0 || loc[0] != '/' {
        return Err(String::from_str("Для локального источника требуется абсолютный путь"));
    }
    Ok(())
}

pub open spec fn msg_github_kind() -> Seq<char> {
    "GitHub-коннектор поддерживает только repository"@
}

pub open spec fn msg_github_access_off() -> Seq<char> {
    "Доступ агента выключен; включите его для репозитория в настройках проекта"@
}

pub open spec fn msg_not_github() -> Seq<char> {
    "Источник не является подключённым GitHub-репозиторием"@
}

/// Whether the GitHub connector may read a resource: a repository with
/// agent access whose location is a GitHub repository URL; the errors in
/// that order.
pub fn github_resource_authorization(resource: &ResourceFacts) -> (r: Result<(), String>)
    ensures
        match r {
            Ok(()) => resource.kind == ProjectResourceKind::Repository && resource.agent_access && resource.is_github,
            Err(e) => if resource.kind != ProjectResourceKind::Repository {
                e@ == msg_github_kind()
            } else if !resource.agent_access {
                e@ == msg_github_access_off()
            } else {
                !resource.is_github && e@ == msg_not_github()
            },
        },
{
    if resource.kind != ProjectResourceKind::Repository {
        return Err(String::from_str("GitHub-коннектор поддерживает только repository"));
    }
    if !resource.agent_access {
        return Err(String::from_str("Доступ агента выключен; включите его для репозитория в настройках проекта"));
    }
    if !resource.is_github {
        return Err(String::from_str("Источник не является подключённым GitHub-репозиторием"));
    }
    Ok(())
}


/// The tools that the project triage context suggests, in order: the image
/// reader when an update carries media; the local search and the GitHub
/// reader where they are available; the message context and the task plan
/// preview when there are updates to plan from; and a sync request when the
/// updates are stale and none is pending.
pub open spec fn spec_triage_context_tools(
    has_media: bool,
    local_reader: bool,
    github: bool,
    ready_to_plan: bool,
    fresh: bool,
    sync_pending: bool,
) -> Seq<Seq<char>> {
    tool_if(has_media, seq!["request_telegram_image"@]) + tool_if(local_reader, seq!["search_project_resource"@])
        + tool_if(github, seq!["get_github_repository_context"@, "search_github_repository"@])
        + tool_if(ready_to_plan, seq!["read_telegram_message_context"@, "preview_project_telegram_tasks"@])
        + tool_if(!fresh && !sync_pending, seq!["request_telegram_sync"@])
}

/// The tools that the project triage context suggests.
pub fn triage_context_tools(
    has_media: bool,
    local_reader: bool,
    github: bool,
    ready_to_plan: bool,
    fresh: bool,
    sync_pending: bool,
) -> (r: Vec<&'static str>)
    ensures
        str_list(r@) == spec_triage_context_tools(has_media, local_reader, github, ready_to_plan, fresh, sync_pending),
{
    let mut v: Vec<&'static str> = Vec::new();
    if has_media {
        v.push("request_telegram_image");
    }
    if local_reader {
        v.push("search_project_resource");
    }
    if github {
        v.push("get_github_repository_context");
        v.push("search_github_repository");
    }
    if ready_to_plan {
        v.push("read_telegram_message_context");
        v.push("preview_project_telegram_tasks");
    }
    if !fresh && !sync_pending {
        v.push("request_telegram_sync");
    }
    assert(str_list(v@) =~= spec_triage_context_tools(has_media, local_reader, github, ready_to_plan, fresh, sync_pending));
    v
}

/// The project brief's suggestions as the triage context shows them: all
/// but the triage context itself, in order.
pub fn without_triage_context(tools: &Vec<&'static str>) -> (r: Vec<&'static str>)
    ensures
        str_list(r@) == str_list(tools@).filter(|t: Seq<char>| t != "get_project_triage_context"@),
{
    let ghost pred = |t: Seq<char>| t != "get_project_triage_context"@;
    let ghost ts = str_list(tools@);
    let mut out: Vec<&'static str> = Vec::new();
    let mut i: usize = 0;
    while i < tools.len()
        invariant
            i <= tools@.len(),
            ts == str_list(tools@),
            pred == (|t: Seq<char>| t != "get_project_triage_context"@),
            str_list(out@) == ts.take(i as int).filter(pred),
        decreases tools.len() - i,
    {
        proof {
            reveal_with_fuel(Seq::filter, 1);
            assert(ts.take(i + 1).drop_last() == ts.take(i as int));
            assert(ts.take(i + 1).last() == tools@[i as int]@);
        }
        if !crate::paths::chars_is(&chars_of(tools[i]), "get_project_triage_context") {
            let ghost before = out@;
            out.push(tools[i]);
            assert(str_list(out@) == str_list(before).push(tools@[i as int]@));
        }
        i = i + 1;
    }
    assert(ts.take(tools@.len() as int) == ts);
    out
}


/// The project context that a work context shows: cut to `max_chars`
/// characters (12000 by default, between 1000 and 20000) keeping its
/// layout, and whether it was cut.
pub fn project_context_excerpt(context: &str, max_chars: Option<usize>) -> (r: (String, bool))
    ensures
        ({
            let max = crate::walk::clamp(match max_chars { Some(x) => x as int, None => 12000 }, 1000, 20000);
            &&& r.1 == (context@.len() > max)
            &&& r.0@ == if context@.len() > max {
                crate::text::spec_truncate_preserving_layout(context@, max as nat)
            } else {
                context@
            }
        }),
{
    let max: usize = match max_chars {
        Some(x) => if x < 1000 { 1000 } else if x > 20000 { 20000 } else { x },
        None => 12000,
    };
    let n = chars_of(context).len();
    if n > max {
        (crate::text::truncate_preserving_layout(context, max), true)
    } else {
        (String::from_str(context), false)
    }
}

} // verus!

use vstd::prelude::*;

use crate::hashing::{hex_lower, sha256, sha256_hex};

verus! {

/// The names of the server's tools, in the order it declares them.
pub open spec fn catalog_names() -> Seq<Seq<char>> {
    seq![
        "get_runtime_info"@,
        "list_connectors"@,
        "list_project_sources"@,
        "get_project_context_feed"@,
        "get_workspace_brief"@,
        "diagnose_store"@,
        "list_recent_activity"@,
        "list_automation_events"@,
        "claim_automation_events"@,
        "resolve_automation_event"@,
        "answer_automation_event"@,
        "inspect_attachment_storage"@,
        "get_telegram_sync_status"@,
        "request_telegram_sync"@,
        "list_telegram_chats"@,
        "read_telegram_chat"@,
        "read_telegram_message_context"@,
        "read_telegram_updates"@,
        "read_project_telegram_updates"@,
        "get_project_triage_context"@,
        "acknowledge_telegram_updates"@,
        "request_telegram_image"@,
        "get_telegram_media_request"@,
        "read_telegram_image"@,
        "run_self_check"@,
        "list_projects"@,
        "get_project"@,
        "list_project_workspace_items"@,
        "get_project_workspace_item"@,
        "check_project_context"@,
        "create_project_workspace_item"@,
        "preview_project_workspace_item_update"@,
        "apply_project_workspace_item_update"@,
        "create_project_knowledge_proposal"@,
        "list_project_memory"@,
        "add_project_memory"@,
        "update_project_memory"@,
        "supersede_project_memory"@,
        "delete_project_memory"@,
        "set_telegram_participant_role"@,
        "get_project_brief"@,
        "list_project_resource_files"@,
        "read_project_resource_file"@,
        "search_project_resource"@,
        "list_github_repository_files"@,
        "read_github_repository_file"@,
        "search_github_repository"@,
        "get_github_repository_context"@,
        "get_task_github_context"@,
        "get_task_local_git_context"@,
        "create_project"@,
        "update_project"@,
        "update_project_context"@,
        "set_project_resources"@,
        "delete_project"@,
        "list_tasks"@,
        "search_tasks"@,
        "get_task_digest"@,
        "get_project_overview"@,
        "get_task"@,
        "get_task_readiness"@,
        "get_task_work_context"@,
        "list_telegram_inbox"@,
        "get_telegram_triage_batch"@,
        "preview_telegram_triage"@,
        "apply_telegram_triage"@,
        "preview_project_telegram_tasks"@,
        "apply_project_telegram_tasks"@,
        "get_telegram_candidate"@,
        "get_telegram_candidate_context"@,
        "create_task_from_telegram_candidate"@,
        "create_task_from_telegram_discussion"@,
        "set_telegram_candidate_status"@,
        "list_trashed_tasks"@,
        "create_task"@,
        "preview_task_batch"@,
        "apply_task_batch"@,
        "queue_task_for_agent"@,
        "queue_project_for_agent"@,
        "get_project_agent_queue"@,
        "get_agent_run"@,
        "answer_agent_run"@,
        "accept_agent_run"@,
        "update_task"@,
        "append_task_checkpoint"@,
        "link_tasks"@,
        "unlink_tasks"@,
        "complete_task"@,
        "move_task"@,
        "trash_task"@,
        "restore_task"@,
        "delete_trashed_task"@,
        "empty_trash"@
    ]
}

pub open spec fn str_list(v: Seq<&'static str>) -> Seq<Seq<char>> {
    v.map_values(|s: &'static str| s@)
}

/// The names of the server's tools, in the order it declares them.
pub fn tool_names() -> (r: Vec<&'static str>)
    ensures
        str_list(r@) == catalog_names(),
{
    let v: Vec<&'static str> = vec![
        "get_runtime_info",
        "list_connectors",
        "list_project_sources",
        "get_project_context_feed",
        "get_workspace_brief",
        "diagnose_store",
        "list_recent_activity",
        "list_automation_events",
        "claim_automation_events",
        "resolve_automation_event",
        "answer_automation_event",
        "inspect_attachment_storage",
        "get_telegram_sync_status",
        "request_telegram_sync",
        "list_telegram_chats",
        "read_telegram_chat",
        "read_telegram_message_context",
        "read_telegram_updates",
        "read_project_telegram_updates",
        "get_project_triage_context",
        "acknowledge_telegram_updates",
        "request_telegram_image",
        "get_telegram_media_request",
        "read_telegram_image",
        "run_self_check",
        "list_projects",
        "get_project",
        "list_project_workspace_items",
        "get_project_workspace_item",
        "check_project_context",
        "create_project_workspace_item",
        "preview_project_workspace_item_update",
        "apply_project_workspace_item_update",
        "create_project_knowledge_proposal",
        "list_project_memory",
        "add_project_memory",
        "update_project_memory",
        "supersede_project_memory",
        "delete_project_memory",
        "set_telegram_participant_role",
        "get_project_brief",
        "list_project_resource_files",
        "read_project_resource_file",
        "search_project_resource",
        "list_github_repository_files",
        "read_github_repository_file",
        "search_github_repository",
        "get_github_repository_context",
        "get_task_github_context",
        "get_task_local_git_context",
        "create_project",
        "update_project",
        "update_project_context",
        "set_project_resources",
        "delete_project",
        "list_tasks",
        "search_tasks",
        "get_task_digest",
        "get_project_overview",
        "get_task",
        "get_task_readiness",
        "get_task_work_context",
        "list_telegram_inbox",
        "get_telegram_triage_batch",
        "preview_telegram_triage",
        "apply_telegram_triage",
        "preview_project_telegram_tasks",
        "apply_project_telegram_tasks",
        "get_telegram_candidate",
        "get_telegram_candidate_context",
        "create_task_from_telegram_candidate",
        "create_task_from_telegram_discussion",
        "set_telegram_candidate_status",
        "list_trashed_tasks",
        "create_task",
        "preview_task_batch",
        "apply_task_batch",
        "queue_task_for_agent",
        "queue_project_for_agent",
        "get_project_agent_queue",
        "get_agent_run",
        "answer_agent_run",
        "accept_agent_run",
        "update_task",
        "append_task_checkpoint",
        "link_tasks",
        "unlink_tasks",
        "complete_task",
        "move_task",
        "trash_task",
        "restore_task",
        "delete_trashed_task",
        "empty_trash"
    ];
    assert(str_list(v@) =~= catalog_names());
    v
}

/// How many tools the server offers.
pub fn tool_catalog_count() -> (r: usize)
    ensures
        r == catalog_names().len(),
{
    tool_names().len()
}

/// The server's name.
pub open spec fn server_name() -> Seq<char> {
    "flood.md"@
}

/// The MCP protocol version that the server speaks by default.
pub open spec fn protocol_version() -> Seq<char> {
    "2026-07-28"@
}

/// The MCP protocol versions that the server accepts, oldest first.
pub open spec fn supported_protocol_versions() -> Seq<Seq<char>> {
    seq!["2025-06-18"@, "2025-11-25"@, "2026-07-28"@]
}

/// The revision of the tool catalog: the lowercase hexadecimal SHA-256 of
/// the catalog's canonical JSON.
pub fn tool_catalog_revision(canonical_catalog: &Vec<u8>) -> (r: String)
    ensures
        r@ == hex_lower(sha256(canonical_catalog@)),
        r@.len() == 64,
{
    sha256_hex(canonical_catalog)
}

/// What the server says of itself to a client before any tool call.
pub struct McpManifest {
    pub name: &'static str,
    pub version: String,
    pub protocol_version: &'static str,
    pub supported_protocol_versions: Vec<&'static str>,
    pub tool_catalog_revision: String,
    pub tool_count: usize,
}

/// The manifest of this server, of version `server_version`, whose tool
/// catalog has the canonical JSON `canonical_catalog`.
pub fn mcp_manifest(server_version: &str, canonical_catalog: &Vec<u8>) -> (r: McpManifest)
    ensures
        r.name@ == server_name(),
        r.version@ == server_version@,
        r.protocol_version@ == protocol_version(),
        str_list(r.supported_protocol_versions@) == supported_protocol_versions(),
        r.tool_catalog_revision@ == hex_lower(sha256(canonical_catalog@)),
        r.tool_catalog_revision@.len() == 64,
        r.tool_count == catalog_names().len(),
{
    let supported: Vec<&'static str> = vec!["2025-06-18", "2025-11-25", "2026-07-28"];
    assert(str_list(supported@) =~= supported_protocol_versions());
    McpManifest {
        name: "flood.md",
        version: server_version.to_string(),
        protocol_version: "2026-07-28",
        supported_protocol_versions: supported,
        tool_catalog_revision: tool_catalog_revision(canonical_catalog),
        tool_count: tool_catalog_count(),
    }
}

/// The default of flags that are on unless a caller turns them off.
pub fn default_true() -> (r: bool)
    ensures
        r,
{
    true
}

/// The message of a storage error, as tools report it.
pub fn store_error(message: &str) -> (r: String)
    ensures
        r@ == message@,
{
    message.to_string()
}


/// The order in which the catalog revision lists tools: by name, tools of
/// equal names in their order.
pub open spec fn tool_name_before(names: Seq<Seq<char>>) -> spec_fn(int, int) -> bool {
    |a: int, b: int| crate::order::seq_less(names[a], names[b])
}

/// The positions of the registered tools' names in revision order.
pub fn catalog_order(names: &Vec<String>) -> (r: Vec<usize>)
    ensures
        crate::stable::as_ints(r@) == crate::stable::stable_sort(
            tool_name_before(crate::order::str_views(names@)),
            Seq::new(names@.len(), |i: int| i),
        ),
{
    let ghost ns = crate::order::str_views(names@);
    let n = names.len();
    let all = crate::stable::positions_below(n);
    let order = crate::stable::sort_positions(
        &all,
        Ghost(tool_name_before(ns)),
        n,
        (|a: usize, b: usize| -> (r: bool)
            requires
                a < n && b < n,
                n == names@.len(),
                ns == crate::order::str_views(names@),
            ensures
                r == tool_name_before(ns)(a as int, b as int),
            {
                crate::order::chars_less(&crate::chars::chars_of(names[a].as_str()), &crate::chars::chars_of(names[b].as_str()))
            }),
    );
    assert(crate::stable::as_ints(all@) =~= Seq::new(names@.len(), |i: int| i));
    order
}

} // verus!

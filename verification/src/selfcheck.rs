//! The binary's self-check of its MCP surface: every required tool is
//! registered, the manifest names this catalog, every tool has an output
//! schema and every irreversible tool is marked destructive.
use vstd::prelude::*;

use crate::catalog::{protocol_version, str_list, supported_protocol_versions, McpManifest};
use crate::chars::{chars_of, string_of};
use crate::decimal::{decimal_digits, to_decimal};
use crate::order::str_views;
use crate::paths::chars_eq;
use crate::text::{join_exec, join_str, push_chars, push_str_chars};

verus! {

/// What the self-check reads of one registered tool.
pub struct ToolFacts {
    pub name: String,
    pub has_output_schema: bool,
    pub destructive_hint: Option<bool>,
}

/// One check of a self-check run, with what failed where it failed.
pub struct SelfCheckItem {
    pub name: String,
    pub passed: bool,
    pub detail: Option<String>,
}

/// The tools that the binary must register.
pub open spec fn required_tools() -> Seq<Seq<char>> {
    seq![
        "get_workspace_brief"@,
        "diagnose_store"@,
        "inspect_attachment_storage"@,
        "list_recent_activity"@,
        "list_automation_events"@,
        "claim_automation_events"@,
        "resolve_automation_event"@,
        "answer_automation_event"@,
        "list_projects"@,
        "list_connectors"@,
        "list_project_sources"@,
        "get_project_context_feed"@,
        "get_project_brief"@,
        "get_project_overview"@,
        "set_telegram_participant_role"@,
        "get_task_work_context"@,
        "append_task_checkpoint"@,
        "preview_task_batch"@,
        "apply_task_batch"@,
        "get_task_readiness"@,
        "link_tasks"@,
        "unlink_tasks"@,
        "queue_task_for_agent"@,
        "queue_project_for_agent"@,
        "get_project_agent_queue"@,
        "get_agent_run"@,
        "accept_agent_run"@,
        "answer_agent_run"@,
        "list_project_resource_files"@,
        "read_project_resource_file"@,
        "search_project_resource"@,
        "list_github_repository_files"@,
        "read_github_repository_file"@,
        "search_github_repository"@,
        "get_github_repository_context"@,
        "get_task_github_context"@,
        "get_task_local_git_context"@,
        "list_project_memory"@,
        "add_project_memory"@,
        "update_project_memory"@,
        "create_project_knowledge_proposal"@,
        "supersede_project_memory"@,
        "delete_project_memory"@,
        "list_project_workspace_items"@,
        "get_project_workspace_item"@,
        "create_project_workspace_item"@,
        "preview_project_workspace_item_update"@,
        "apply_project_workspace_item_update"@,
        "update_project_context"@,
        "set_project_resources"@,
        "list_tasks"@,
        "search_tasks"@,
        "get_task_digest"@,
        "get_telegram_sync_status"@,
        "request_telegram_sync"@,
        "list_telegram_chats"@,
        "read_telegram_chat"@,
        "read_telegram_message_context"@,
        "read_telegram_updates"@,
        "read_project_telegram_updates"@,
        "get_project_triage_context"@,
        "acknowledge_telegram_updates"@,
        "request_telegram_image"@,
        "get_telegram_media_request"@,
        "read_telegram_image"@,
        "preview_telegram_triage"@,
        "apply_telegram_triage"@,
        "get_telegram_candidate_context"@,
        "create_task_from_telegram_discussion"@,
        "preview_project_telegram_tasks"@,
        "apply_project_telegram_tasks"@,
        "run_self_check"@
    ]
}

fn required_tool_list() -> (r: Vec<&'static str>)
    ensures
        str_list(r@) == required_tools(),
{
    let v: Vec<&'static str> = vec![
        "get_workspace_brief",
        "diagnose_store",
        "inspect_attachment_storage",
        "list_recent_activity",
        "list_automation_events",
        "claim_automation_events",
        "resolve_automation_event",
        "answer_automation_event",
        "list_projects",
        "list_connectors",
        "list_project_sources",
        "get_project_context_feed",
        "get_project_brief",
        "get_project_overview",
        "set_telegram_participant_role",
        "get_task_work_context",
        "append_task_checkpoint",
        "preview_task_batch",
        "apply_task_batch",
        "get_task_readiness",
        "link_tasks",
        "unlink_tasks",
        "queue_task_for_agent",
        "queue_project_for_agent",
        "get_project_agent_queue",
        "get_agent_run",
        "accept_agent_run",
        "answer_agent_run",
        "list_project_resource_files",
        "read_project_resource_file",
        "search_project_resource",
        "list_github_repository_files",
        "read_github_repository_file",
        "search_github_repository",
        "get_github_repository_context",
        "get_task_github_context",
        "get_task_local_git_context",
        "list_project_memory",
        "add_project_memory",
        "update_project_memory",
        "create_project_knowledge_proposal",
        "supersede_project_memory",
        "delete_project_memory",
        "list_project_workspace_items",
        "get_project_workspace_item",
        "create_project_workspace_item",
        "preview_project_workspace_item_update",
        "apply_project_workspace_item_update",
        "update_project_context",
        "set_project_resources",
        "list_tasks",
        "search_tasks",
        "get_task_digest",
        "get_telegram_sync_status",
        "request_telegram_sync",
        "list_telegram_chats",
        "read_telegram_chat",
        "read_telegram_message_context",
        "read_telegram_updates",
        "read_project_telegram_updates",
        "get_project_triage_context",
        "acknowledge_telegram_updates",
        "request_telegram_image",
        "get_telegram_media_request",
        "read_telegram_image",
        "preview_telegram_triage",
        "apply_telegram_triage",
        "get_telegram_candidate_context",
        "create_task_from_telegram_discussion",
        "preview_project_telegram_tasks",
        "apply_project_telegram_tasks",
        "run_self_check"
    ];
    assert(str_list(v@) =~= required_tools());
    v
}

pub open spec fn tool_listed(tools: Seq<ToolFacts>, name: Seq<char>) -> bool {
    exists|i: int| 0 <= i < tools.len() && (#[trigger] tools[i]).name@ == name
}

/// The names among `names` that no tool of `tools` has, in order.
pub open spec fn unlisted(names: Seq<Seq<char>>, tools: Seq<ToolFacts>) -> Seq<Seq<char>>
    decreases names.len(),
{
    if names.len() == 0 {
        Seq::empty()
    } else {
        let rest = unlisted(names.drop_last(), tools);
        if tool_listed(tools, names.last()) {
            rest
        } else {
            rest.push(names.last())
        }
    }
}

/// The names of the tools without an output schema, in order.
pub open spec fn schemaless(tools: Seq<ToolFacts>) -> Seq<Seq<char>>
    decreases tools.len(),
{
    if tools.len() == 0 {
        Seq::empty()
    } else {
        let rest = schemaless(tools.drop_last());
        if tools.last().has_output_schema {
            rest
        } else {
            rest.push(tools.last().name@)
        }
    }
}

/// The tools whose effect cannot be undone.
pub open spec fn irreversible(name: Seq<char>) -> bool {
    name == "delete_project"@ || name == "delete_project_memory"@ || name == "delete_trashed_task"@ || name == "empty_trash"@
}

/// Every irreversible tool says that it is destructive.
pub open spec fn destructive_marked(tools: Seq<ToolFacts>) -> bool {
    forall|i: int| 0 <= i < tools.len() && irreversible((#[trigger] tools[i]).name@) ==> tools[i].destructive_hint == Some(true)
}

/// The manifest names this server's protocol versions and a catalog of
/// `tool_count` tools with a revision of 64 bytes, as a full SHA-256 in
/// hexadecimal is.
pub open spec fn catalog_identity(m: McpManifest, declared_protocols_match_sdk: bool, tool_count: int) -> bool {
    &&& m.protocol_version@ == protocol_version()
    &&& str_list(m.supported_protocol_versions@) == supported_protocol_versions()
    &&& declared_protocols_match_sdk
    &&& m.tool_count == tool_count
    &&& vstd::utf8::encode_utf8(m.tool_catalog_revision@).len() == 64
}

/// How `{:?}` shows a list of strings (each quoted and escaped as
/// `str::escape_debug` does, separated by `, `, in square brackets).
pub uninterp spec fn debug_str_list(items: Seq<Seq<char>>) -> Seq<char>;

/// `format!("{:?}", items)` on a list of strings, named by `debug_str_list`.
#[verifier::external_body]
fn debug_format(items: &Vec<&'static str>) -> (r: String)
    ensures
        r@ == debug_str_list(str_list(items@)),
{
    format!("{:?}", items)
}

pub open spec fn identity_detail(m: McpManifest) -> Seq<char> {
    "protocol "@ + m.protocol_version@ + ", supported "@ + debug_str_list(str_list(m.supported_protocol_versions@))
        + ", tools "@ + decimal_digits(m.tool_count as nat) + ", revision "@ + m.tool_catalog_revision@
}

pub open spec fn item_view(c: SelfCheckItem) -> (Seq<char>, bool, Option<Seq<char>>) {
    (c.name@, c.passed, match c.detail {
        Some(d) => Some(d@),
        None => None,
    })
}

/// The four checks of the MCP surface, in order.
pub open spec fn surface_checks(tools: Seq<ToolFacts>, m: McpManifest, declared_protocols_match_sdk: bool) -> Seq<(Seq<char>, bool, Option<Seq<char>>)> {
    let missing = unlisted(required_tools(), tools);
    let identity = catalog_identity(m, declared_protocols_match_sdk, tools.len() as int);
    let no_schema = schemaless(tools);
    let safe = destructive_marked(tools);
    seq![
        ("Реестр MCP-инструментов"@, missing.len() == 0, if missing.len() == 0 { None } else { Some("Не найдены: "@ + join_str(missing, ", "@)) }),
        ("Идентичность MCP-каталога"@, identity, if identity { None } else { Some(identity_detail(m)) }),
        ("Структурированные ответы MCP"@, no_schema.len() == 0, if no_schema.len() == 0 { None } else { Some("Нет output schema: "@ + join_str(no_schema, ", "@)) }),
        ("Аннотации безопасности MCP"@, safe, if safe { None } else { Some("Необратимый инструмент не помечен как destructive"@) })
    ]
}

fn has_tool(tools: &Vec<ToolFacts>, name: &str) -> (r: bool)
    ensures
        r == tool_listed(tools@, name@),
{
    let n = chars_of(name);
    let mut i: usize = 0;
    while i < tools.len()
        invariant
            i <= tools@.len(),
            n@ == name@,
            forall|k: int| 0 <= k < i ==> (#[trigger] tools@[k]).name@ != name@,
        decreases tools.len() - i,
    {
        if chars_eq(&chars_of(tools[i].name.as_str()), &n) {
            return true;
        }
        i = i + 1;
    }
    false
}

fn missing_required(tools: &Vec<ToolFacts>) -> (r: Vec<String>)
    ensures
        str_views(r@) == unlisted(required_tools(), tools@),
{
    let required = required_tool_list();
    let ghost names = str_list(required@);
    let mut out: Vec<String> = Vec::new();
    let mut i: usize = 0;
    while i < required.len()
        invariant
            i <= required@.len(),
            names == str_list(required@),
            str_views(out@) == unlisted(names.take(i as int), tools@),
        decreases required.len() - i,
    {
        assert(names.take(i + 1).drop_last() == names.take(i as int));
        let name = required[i];
        if !has_tool(tools, name) {
            let ghost before = out@;
            out.push(name.to_string());
            assert(str_views(out@) == str_views(before).push(name@));
        }
        i = i + 1;
    }
    assert(names.take(required@.len() as int) == names);
    out
}

fn missing_schemas(tools: &Vec<ToolFacts>) -> (r: Vec<String>)
    ensures
        str_views(r@) == schemaless(tools@),
{
    let mut out: Vec<String> = Vec::new();
    let mut i: usize = 0;
    while i < tools.len()
        invariant
            i <= tools@.len(),
            str_views(out@) == schemaless(tools@.take(i as int)),
        decreases tools.len() - i,
    {
        assert(tools@.take(i + 1).drop_last() == tools@.take(i as int));
        if !tools[i].has_output_schema {
            let ghost before = out@;
            out.push(tools[i].name.clone());
            assert(str_views(out@) == str_views(before).push(tools@[i as int].name@));
        }
        i = i + 1;
    }
    assert(tools@.take(tools@.len() as int) == tools@);
    out
}

fn is_irreversible(name: &String) -> (r: bool)
    ensures
        r == irreversible(name@),
{
    let n = chars_of(name.as_str());
    crate::paths::chars_is(&n, "delete_project") || crate::paths::chars_is(&n, "delete_project_memory")
        || crate::paths::chars_is(&n, "delete_trashed_task") || crate::paths::chars_is(&n, "empty_trash")
}

fn all_destructive_marked(tools: &Vec<ToolFacts>) -> (r: bool)
    ensures
        r == destructive_marked(tools@),
{
    let mut i: usize = 0;
    while i < tools.len()
        invariant
            i <= tools@.len(),
            forall|k: int| 0 <= k < i && irreversible((#[trigger] tools@[k]).name@) ==> tools@[k].destructive_hint == Some(true),
        decreases tools.len() - i,
    {
        if is_irreversible(&tools[i].name) {
            match tools[i].destructive_hint {
                Some(true) => {},
                _ => {
                    return false;
                },
            }
        }
        i = i + 1;
    }
    true
}

fn str_list_eq(v: &Vec<&'static str>, w: &Vec<&'static str>) -> (r: bool)
    ensures
        r == (str_list(v@) == str_list(w@)),
{
    if v.len() != w.len() {
        assert(str_list(v@).len() != str_list(w@).len());
        return false;
    }
    let mut i: usize = 0;
    while i < v.len()
        invariant
            i <= v@.len(),
            v@.len() == w@.len(),
            forall|k: int| 0 <= k < i ==> (#[trigger] v@[k])@ == w@[k]@,
        decreases v.len() - i,
    {
        if !chars_eq(&chars_of(v[i]), &chars_of(w[i])) {
            assert(str_list(v@)[i as int] != str_list(w@)[i as int]);
            return false;
        }
        i = i + 1;
    }
    assert(str_list(v@) =~= str_list(w@));
    true
}

fn identity_ok(m: &McpManifest, declared_protocols_match_sdk: bool, tool_count: usize) -> (r: bool)
    ensures
        r == catalog_identity(*m, declared_protocols_match_sdk, tool_count as int),
{
    let supported: Vec<&'static str> = vec!["2025-06-18", "2025-11-25", "2026-07-28"];
    assert(str_list(supported@) =~= supported_protocol_versions());
    crate::paths::chars_is(&chars_of(m.protocol_version), "2026-07-28")
        && str_list_eq(&m.supported_protocol_versions, &supported)
        && declared_protocols_match_sdk
        && m.tool_count == tool_count
        && m.tool_catalog_revision.as_str().as_bytes().len() == 64
}

fn identity_detail_exec(m: &McpManifest) -> (r: String)
    ensures
        r@ == identity_detail(*m),
{
    let mut v: Vec<char> = Vec::new();
    push_str_chars(&mut v, "protocol ");
    push_str_chars(&mut v, m.protocol_version);
    push_str_chars(&mut v, ", supported ");
    let list = debug_format(&m.supported_protocol_versions);
    push_str_chars(&mut v, list.as_str());
    push_str_chars(&mut v, ", tools ");
    let count = to_decimal(m.tool_count);
    push_chars(&mut v, &count);
    push_str_chars(&mut v, ", revision ");
    push_str_chars(&mut v, m.tool_catalog_revision.as_str());
    string_of(&v)
}

fn prefixed(prefix: &str, names: &Vec<String>) -> (r: String)
    ensures
        r@ == prefix@ + join_str(str_views(names@), ", "@),
{
    let mut v: Vec<char> = Vec::new();
    push_str_chars(&mut v, prefix);
    let joined = join_exec(names, ", ");
    push_chars(&mut v, &joined);
    string_of(&v)
}

/// The checks of the MCP surface, from the registered tools, the manifest
/// and whether the protocol versions it declares are those of the SDK. A
/// failed check says what failed: the missing tools, the manifest's identity,
/// the tools without output schema; the identity's detail shows the
/// supported versions as `{:?}` does.
pub fn mcp_surface_checks(tools: &Vec<ToolFacts>, manifest: &McpManifest, declared_protocols_match_sdk: bool) -> (r: Vec<SelfCheckItem>)
    ensures
        r@.len() == 4,
        forall|i: int| 0 <= i < 4 ==> {
            let want = #[trigger] surface_checks(tools@, *manifest, declared_protocols_match_sdk)[i];
            let got = item_view(r@[i]);
            &&& got.0 == want.0
            &&& got.1 == want.1
            &&& got.2 == want.2
        },
{
    let missing = missing_required(tools);
    let c0 = if missing.len() == 0 {
        SelfCheckItem { name: String::from_str("Реестр MCP-инструментов"), passed: true, detail: None }
    } else {
        SelfCheckItem { name: String::from_str("Реестр MCP-инструментов"), passed: false, detail: Some(prefixed("Не найдены: ", &missing)) }
    };
    let identity = identity_ok(manifest, declared_protocols_match_sdk, tools.len());
    let c1 = if identity {
        SelfCheckItem { name: String::from_str("Идентичность MCP-каталога"), passed: true, detail: None }
    } else {
        SelfCheckItem { name: String::from_str("Идентичность MCP-каталога"), passed: false, detail: Some(identity_detail_exec(manifest)) }
    };
    let no_schema = missing_schemas(tools);
    let c2 = if no_schema.len() == 0 {
        SelfCheckItem { name: String::from_str("Структурированные ответы MCP"), passed: true, detail: None }
    } else {
        SelfCheckItem { name: String::from_str("Структурированные ответы MCP"), passed: false, detail: Some(prefixed("Нет output schema: ", &no_schema)) }
    };
    let safe = all_destructive_marked(tools);
    let c3 = if safe {
        SelfCheckItem { name: String::from_str("Аннотации безопасности MCP"), passed: true, detail: None }
    } else {
        SelfCheckItem {
            name: String::from_str("Аннотации безопасности MCP"),
            passed: false,
            detail: Some(String::from_str("Необратимый инструмент не помечен как destructive")),
        }
    };
    let r: Vec<SelfCheckItem> = vec![c0, c1, c2, c3];
    proof {
        let want = surface_checks(tools@, *manifest, declared_protocols_match_sdk);
        assert(item_view(r@[0]) == want[0]);
        assert(item_view(r@[1]) == want[1]);
        assert(item_view(r@[2]) == want[2]);
        assert(item_view(r@[3]) == want[3]);
    }
    r
}

/// Whether every check passed.
pub open spec fn all_passed(checks: Seq<SelfCheckItem>) -> bool {
    forall|i: int| 0 <= i < checks.len() ==> (#[trigger] checks[i]).passed
}

/// A self-check run: the core's checks followed by those of the MCP surface;
/// it passes when the core passed and every check passed.
pub fn binary_self_check(
    core_passed: bool,
    core_checks: Vec<SelfCheckItem>,
    tools: &Vec<ToolFacts>,
    manifest: &McpManifest,
    declared_protocols_match_sdk: bool,
) -> (r: (bool, Vec<SelfCheckItem>))
    ensures
        r.1@.len() == core_checks@.len() + 4,
        r.1@.take(core_checks@.len() as int) == core_checks@,
        r.0 == (core_passed && all_passed(r.1@)),
        forall|i: int| 0 <= i < 4 ==> {
            let want = #[trigger] surface_checks(tools@, *manifest, declared_protocols_match_sdk)[i];
            let got = item_view(r.1@[core_checks@.len() + i]);
            &&& got.0 == want.0
            &&& got.1 == want.1
            &&& got.2 == want.2
        },
{
    let surface = mcp_surface_checks(tools, manifest, declared_protocols_match_sdk);
    let ghost core = core_checks@;
    let mut checks = core_checks;
    let ghost s = surface@;
    let mut rest = surface;
    let mut k: usize = 0;
    while rest.len() > 0
        invariant
            s.len() == 4,
            k + rest@.len() == 4,
            rest@ == s.skip(k as int),
            checks@ == core + s.take(k as int),
        decreases rest.len(),
    {
        let c = rest.remove(0);
        assert(s.take(k + 1) == s.take(k as int).push(s[k as int]));
        checks.push(c);
        k = k + 1;
        assert(rest@ == s.skip(k as int));
    }
    assert(s.take(4) == s);
    assert forall|i: int| 0 <= i < 4 implies checks@[core.len() + i] == s[i] by {}
    let mut passed = core_passed;
    let mut i: usize = 0;
    while i < checks.len()
        invariant
            i <= checks@.len(),
            passed == (core_passed && forall|j: int| 0 <= j < i ==> (#[trigger] checks@[j]).passed),
        decreases checks.len() - i,
    {
        passed = passed && checks[i].passed;
        i = i + 1;
    }
    assert(checks@.take(core.len() as int) == core);
    (passed, checks)
}


/// Whether the protocol versions that the MCP SDK declares are, in order,
/// those that this server names.
pub fn protocols_match_sdk(sdk_versions: &Vec<String>) -> (r: bool)
    ensures
        r == (str_views(sdk_versions@) == supported_protocol_versions()),
{
    let supported: Vec<&'static str> = vec!["2025-06-18", "2025-11-25", "2026-07-28"];
    assert(str_list(supported@) =~= supported_protocol_versions());
    if sdk_versions.len() != supported.len() {
        assert(str_views(sdk_versions@).len() != supported_protocol_versions().len());
        return false;
    }
    let mut i: usize = 0;
    while i < supported.len()
        invariant
            i <= supported@.len(),
            supported@.len() == sdk_versions@.len(),
            str_list(supported@) == supported_protocol_versions(),
            forall|k: int| 0 <= k < i ==> (#[trigger] sdk_versions@[k])@ == supported@[k]@,
        decreases supported.len() - i,
    {
        if !chars_eq(&chars_of(sdk_versions[i].as_str()), &chars_of(supported[i])) {
            assert(str_views(sdk_versions@)[i as int] != supported_protocol_versions()[i as int]);
            return false;
        }
        i = i + 1;
    }
    assert(str_views(sdk_versions@) =~= supported_protocol_versions());
    true
}

} // verus!

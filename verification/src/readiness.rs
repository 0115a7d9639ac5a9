use vstd::prelude::*;

use crate::chars::{chars_of, string_of};
use crate::decimal::{decimal_digits, to_decimal_u128};
use crate::paths::chars_is;
use crate::text::{join_str, join_exec, push_chars, push_str_chars};

verus! {

/// Sync results younger than this many seconds are fresh.
pub open spec fn sync_fresh_seconds() -> u64 {
    300
}

/// A queued sync request older than this many seconds waits for the desktop.
pub open spec fn request_wait_seconds() -> u64 {
    120
}

/// A connector status younger than this many seconds is current.
pub open spec fn connector_current_seconds() -> u64 {
    120
}

/// The Telegram connector as last observed by the desktop app.
pub struct ConnectorObservation {
    /// The connector's step (`ready`, `unconfigured`, `phone`, `code`,
    /// `password`, `qr`, `database_error`, `error`, ...).
    pub step: String,
    pub error: Option<String>,
    /// Seconds since the observation.
    pub age_seconds: u64,
}

/// The last completed Telegram sync.
pub struct SyncObservation {
    /// The request the sync answered, if any.
    pub request_id: Option<String>,
    /// Seconds since the sync completed.
    pub age_seconds: u64,
}

/// A sync request queued for the desktop app.
pub struct PendingSyncRequest {
    pub id: String,
    /// Seconds since the request was queued.
    pub age_seconds: u64,
}

/// Where the Telegram sync stands.
#[derive(PartialEq, Eq, Structural, Clone, Copy, Debug)]
pub enum SyncPhase {
    ConnectorNotReady,
    CompletedPendingAck,
    WaitingForDesktop,
    Queued,
    Completed,
    NeverSynced,
}

/// The Telegram sync status that agents see.
pub struct TelegramSyncDecision {
    pub phase: SyncPhase,
    pub fresh: bool,
    pub request_completed: bool,
    pub pending_age_seconds: Option<u64>,
    pub status_age_seconds: Option<u64>,
    pub connector_status_age_seconds: Option<u64>,
    pub next_action: String,
}

pub open spec fn opt_str(o: Option<String>) -> Option<Seq<char>> {
    match o {
        Some(s) => Some(s@),
        None => None,
    }
}

/// Whether a current connector observation says the connector is not ready.
pub open spec fn spec_connector_not_ready(connector: Option<ConnectorObservation>) -> bool {
    match connector {
        Some(c) => c.age_seconds <= connector_current_seconds() && c.step@ != "ready"@,
        None => false,
    }
}

/// Whether the last sync answered the pending request.
pub open spec fn spec_request_completed(status: Option<SyncObservation>, pending: Option<PendingSyncRequest>) -> bool {
    match (status, pending) {
        (Some(s), Some(p)) => opt_str(s.request_id) == Some(p.id@),
        _ => false,
    }
}

/// Whether the Telegram data is fresh: the connector is not known to be
/// unready, the last sync is at most five minutes old and no request waits.
pub open spec fn spec_sync_fresh(connector: Option<ConnectorObservation>, status: Option<SyncObservation>, pending: Option<PendingSyncRequest>) -> bool {
    &&& !spec_connector_not_ready(connector)
    &&& match status { Some(s) => s.age_seconds <= sync_fresh_seconds(), None => false }
    &&& (pending is None || spec_request_completed(status, pending))
}

/// The phase of the sync, first matching rule wins.
pub open spec fn spec_sync_phase(connector: Option<ConnectorObservation>, status: Option<SyncObservation>, pending: Option<PendingSyncRequest>) -> SyncPhase {
    if spec_connector_not_ready(connector) {
        SyncPhase::ConnectorNotReady
    } else if pending is Some && spec_request_completed(status, pending) {
        SyncPhase::CompletedPendingAck
    } else if match pending { Some(p) => p.age_seconds > request_wait_seconds(), None => false } {
        SyncPhase::WaitingForDesktop
    } else if pending is Some {
        SyncPhase::Queued
    } else if status is Some {
        SyncPhase::Completed
    } else {
        SyncPhase::NeverSynced
    }
}

/// The advice given to the agent for each phase.
pub open spec fn spec_next_action(phase: SyncPhase, fresh: bool, connector: Option<ConnectorObservation>) -> Seq<char> {
    match phase {
        SyncPhase::ConnectorNotReady => {
            let step = match connector { Some(c) => c.step@, None => Seq::empty() };
            if step == "unconfigured"@ {
                "Подключите Telegram в настройках flood.md"@
            } else if step == "phone"@ || step == "code"@ || step == "password"@ || step == "qr"@ {
                "Завершите авторизацию Telegram в flood.md"@
            } else if step == "database_error"@ || step == "error"@ {
                match connector {
                    Some(c) => match c.error {
                        Some(e) => "Исправьте подключение Telegram в flood.md: "@ + e@,
                        None => "Исправьте подключение Telegram в flood.md"@,
                    },
                    None => "Исправьте подключение Telegram в flood.md"@,
                }
            } else {
                "Дождитесь запуска Telegram-коннектора в flood.md"@
            }
        },
        SyncPhase::CompletedPendingAck => "Результат уже записан. Ориентируйтесь на status.health; desktop удалит служебный запрос при следующей синхронизации"@,
        SyncPhase::WaitingForDesktop => "Откройте flood.md и проверьте подключение Telegram. Не опрашивайте статус непрерывно"@,
        SyncPhase::Queued => "Подождите короткое время и один раз повторите get_telegram_sync_status"@,
        SyncPhase::Completed => if fresh {
            "Данные свежие. Можно разбирать get_telegram_triage_batch"@
        } else {
            "Запросите request_telegram_sync перед разбором входящих"@
        },
        SyncPhase::NeverSynced => "Запросите request_telegram_sync; desktop выполнит синхронизацию через TDLib"@,
    }
}

/// The wire name of a phase.
pub open spec fn phase_name(p: SyncPhase) -> Seq<char> {
    match p {
        SyncPhase::ConnectorNotReady => "connector_not_ready"@,
        SyncPhase::CompletedPendingAck => "completed_pending_ack"@,
        SyncPhase::WaitingForDesktop => "waiting_for_desktop"@,
        SyncPhase::Queued => "queued"@,
        SyncPhase::Completed => "completed"@,
        SyncPhase::NeverSynced => "never_synced"@,
    }
}

/// The wire name of a phase.
pub fn sync_phase_name(p: SyncPhase) -> (r: &'static str)
    ensures
        r@ == phase_name(p),
{
    match p {
        SyncPhase::ConnectorNotReady => "connector_not_ready",
        SyncPhase::CompletedPendingAck => "completed_pending_ack",
        SyncPhase::WaitingForDesktop => "waiting_for_desktop",
        SyncPhase::Queued => "queued",
        SyncPhase::Completed => "completed",
        SyncPhase::NeverSynced => "never_synced",
    }
}

fn opt_eq(a: &Option<String>, b: &String) -> (r: bool)
    ensures
        r == (opt_str(*a) == Some(b@)),
{
    match a {
        Some(x) => crate::paths::chars_eq(&chars_of(x.as_str()), &chars_of(b.as_str())),
        None => false,
    }
}

/// The Telegram sync status from the desktop's observations: phase, freshness,
/// ages and the advice for the agent.
pub fn telegram_sync_output(
    connector: &Option<ConnectorObservation>,
    status: &Option<SyncObservation>,
    pending_request: &Option<PendingSyncRequest>,
) -> (r: TelegramSyncDecision)
    ensures
        r.phase == spec_sync_phase(*connector, *status, *pending_request),
        r.fresh == spec_sync_fresh(*connector, *status, *pending_request),
        r.request_completed == spec_request_completed(*status, *pending_request),
        r.pending_age_seconds == match *pending_request { Some(p) => Some(p.age_seconds), None => None },
        r.status_age_seconds == match *status { Some(s) => Some(s.age_seconds), None => None },
        r.connector_status_age_seconds == match *connector { Some(c) => Some(c.age_seconds), None => None },
        r.next_action@ == spec_next_action(r.phase, r.fresh, *connector),
{
    let connector_not_ready = match connector {
        Some(c) => c.age_seconds <= 120 && !chars_is(&chars_of(c.step.as_str()), "ready"),
        None => false,
    };
    let request_completed = match (status, pending_request) {
        (Some(s), Some(p)) => opt_eq(&s.request_id, &p.id),
        _ => false,
    };
    let fresh = !connector_not_ready && match status {
        Some(s) => s.age_seconds <= 300,
        None => false,
    } && (pending_request.is_none() || request_completed);
    let phase = if connector_not_ready {
        SyncPhase::ConnectorNotReady
    } else if pending_request.is_some() && request_completed {
        SyncPhase::CompletedPendingAck
    } else if match pending_request {
        Some(p) => p.age_seconds > 120,
        None => false,
    } {
        SyncPhase::WaitingForDesktop
    } else if pending_request.is_some() {
        SyncPhase::Queued
    } else if status.is_some() {
        SyncPhase::Completed
    } else {
        SyncPhase::NeverSynced
    };
    let next_action = match phase {
        SyncPhase::ConnectorNotReady => {
            let step = match connector {
                Some(c) => chars_of(c.step.as_str()),
                None => Vec::new(),
            };
            if chars_is(&step, "unconfigured") {
                String::from_str("Подключите Telegram в настройках flood.md")
            } else if chars_is(&step, "phone") || chars_is(&step, "code") || chars_is(&step, "password") || chars_is(&step, "qr") {
                String::from_str("Завершите авторизацию Telegram в flood.md")
            } else if chars_is(&step, "database_error") || chars_is(&step, "error") {
                match connector {
                    Some(c) => match &c.error {
                        Some(e) => {
                            let mut m = String::from_str("Исправьте подключение Telegram в flood.md: ");
                            m.append(e.as_str());
                            m
                        },
                        None => String::from_str("Исправьте подключение Telegram в flood.md"),
                    },
                    None => String::from_str("Исправьте подключение Telegram в flood.md"),
                }
            } else {
                String::from_str("Дождитесь запуска Telegram-коннектора в flood.md")
            }
        },
        SyncPhase::CompletedPendingAck => String::from_str("Результат уже записан. Ориентируйтесь на status.health; desktop удалит служебный запрос при следующей синхронизации"),
        SyncPhase::WaitingForDesktop => String::from_str("Откройте flood.md и проверьте подключение Telegram. Не опрашивайте статус непрерывно"),
        SyncPhase::Queued => String::from_str("Подождите короткое время и один раз повторите get_telegram_sync_status"),
        SyncPhase::Completed => if fresh {
            String::from_str("Данные свежие. Можно разбирать get_telegram_triage_batch")
        } else {
            String::from_str("Запросите request_telegram_sync перед разбором входящих")
        },
        SyncPhase::NeverSynced => String::from_str("Запросите request_telegram_sync; desktop выполнит синхронизацию через TDLib"),
    };
    TelegramSyncDecision {
        phase,
        fresh,
        request_completed,
        pending_age_seconds: match pending_request { Some(p) => Some(p.age_seconds), None => None },
        status_age_seconds: match status { Some(s) => Some(s.age_seconds), None => None },
        connector_status_age_seconds: match connector { Some(c) => Some(c.age_seconds), None => None },
        next_action,
    }
}

/// Law: fresh Telegram data always comes with a completed phase — a fresh
/// sync is never reported while a request waits unanswered or the connector is
/// known to be unready.
pub proof fn lemma_fresh_sync_phase(connector: Option<ConnectorObservation>, status: Option<SyncObservation>, pending: Option<PendingSyncRequest>)
    requires
        spec_sync_fresh(connector, status, pending),
    ensures
        spec_sync_phase(connector, status, pending) == SyncPhase::Completed
            || spec_sync_phase(connector, status, pending) == SyncPhase::CompletedPendingAck,
{
}

/// The store diagnostics that readiness reads.
pub struct StoreHealth {
    pub healthy: bool,
    pub project_count: usize,
    pub open_task_count: usize,
    pub issues: Vec<String>,
    pub linked_chat_count: usize,
    pub pending_inbox_count: usize,
}

/// The attachment storage report that readiness reads.
pub struct AttachmentHealth {
    pub total_files: usize,
    pub orphaned_files: usize,
    pub orphaned_bytes: u64,
}

/// The self-check result that readiness reads.
pub struct SelfCheckHealth {
    pub passed: bool,
    /// Whether each check passed, in order.
    pub checks: Vec<bool>,
    pub duration_ms: u128,
}

/// The Telegram sync facts that readiness reads.
pub struct TelegramHealth {
    pub fresh: bool,
    /// The last sync finished with success.
    pub healthy_sync: bool,
    pub phase: SyncPhase,
    pub has_pending_request: bool,
    pub next_action: String,
}

#[derive(PartialEq, Eq, Structural, Clone, Copy, Debug)]
pub enum CheckStatus {
    Passed,
    Attention,
    Failed,
}

#[derive(PartialEq, Eq, Structural, Clone, Copy, Debug)]
pub enum ReadinessLevel {
    Ready,
    Attention,
    Blocked,
}

/// One operational check of the workspace.
pub struct OperationalCheck {
    pub id: &'static str,
    pub status: CheckStatus,
    pub summary: String,
    pub action_tool: Option<&'static str>,
}

/// Whether the workspace can serve an agent, and why not.
pub struct WorkspaceReadiness {
    pub level: ReadinessLevel,
    pub agent_ready: bool,
    pub checks: Vec<OperationalCheck>,
}

pub type CheckView = (Seq<char>, CheckStatus, Seq<char>, Option<Seq<char>>);

pub open spec fn check_view(c: OperationalCheck) -> CheckView {
    (c.id@, c.status, c.summary@, match c.action_tool { Some(t) => Some(t@), None => None })
}

pub open spec fn dec(n: nat) -> Seq<char> {
    decimal_digits(n)
}

/// The number of `false` entries.
pub open spec fn failed_count(checks: Seq<bool>) -> nat
    decreases checks.len(),
{
    if checks.len() == 0 {
        0
    } else {
        failed_count(checks.drop_last()) + if checks.last() { 0nat } else { 1nat }
    }
}

pub open spec fn spec_store_check(d: StoreHealth) -> CheckView {
    if d.healthy {
        ("store"@, CheckStatus::Passed, "Хранилище доступно: проектов "@ + dec(d.project_count as nat) + ", открытых задач "@ + dec(d.open_task_count as nat), None)
    } else {
        ("store"@, CheckStatus::Failed, "Хранилище требует внимания: "@ + join_str(crate::order::str_views(d.issues@), "; "@), Some("diagnose_store"@))
    }
}

pub open spec fn spec_mcp_check(c: SelfCheckHealth) -> CheckView {
    if c.passed {
        ("mcp_surface"@, CheckStatus::Passed, "Изолированный цикл и MCP-контракты пройдены: "@ + dec(c.checks@.len()) + " проверок за "@ + dec(c.duration_ms as nat) + " мс"@, None)
    } else {
        ("mcp_surface"@, CheckStatus::Failed, "Не пройдено MCP-проверок: "@ + dec(failed_count(c.checks@)), Some("run_self_check"@))
    }
}

pub open spec fn spec_attachment_check(a: AttachmentHealth) -> CheckView {
    if a.orphaned_files == 0 {
        ("attachments"@, CheckStatus::Passed, "Вложения учтены: файлов "@ + dec(a.total_files as nat) + ", потерянных ссылок нет"@, None)
    } else {
        ("attachments"@, CheckStatus::Attention, "Найдены неиспользуемые вложения: "@ + dec(a.orphaned_files as nat) + " ("@ + dec(a.orphaned_bytes as nat) + " байт)"@, Some("inspect_attachment_storage"@))
    }
}

pub open spec fn spec_telegram_check(d: StoreHealth, t: TelegramHealth) -> CheckView {
    if d.linked_chat_count == 0 {
        ("telegram"@, CheckStatus::Passed, "Telegram-чаты не связаны; интеграция не требуется для локальных задач"@, None)
    } else if t.fresh && t.healthy_sync {
        ("telegram"@, CheckStatus::Passed, "Telegram-входящие синхронизированы и готовы к разбору"@, if d.pending_inbox_count > 0 { Some("get_telegram_triage_batch"@) } else { None })
    } else {
        ("telegram"@, CheckStatus::Attention, t.next_action@, if t.phase == SyncPhase::Queued { Some("get_telegram_sync_status"@) } else if !t.has_pending_request { Some("request_telegram_sync"@) } else { None })
    }
}

/// The checks of the workspace: store, MCP surface, attachments, Telegram.
pub open spec fn spec_readiness_checks(d: StoreHealth, a: AttachmentHealth, t: TelegramHealth, c: SelfCheckHealth) -> Seq<CheckView> {
    seq![spec_store_check(d), spec_mcp_check(c), spec_attachment_check(a), spec_telegram_check(d, t)]
}

/// The readiness level: blocked when a check failed, attention when one needs
/// attention, ready otherwise.
pub open spec fn spec_level(checks: Seq<CheckView>) -> ReadinessLevel {
    if exists|i: int| 0 <= i < checks.len() && (#[trigger] checks[i]).1 == CheckStatus::Failed {
        ReadinessLevel::Blocked
    } else if exists|i: int| 0 <= i < checks.len() && (#[trigger] checks[i]).1 == CheckStatus::Attention {
        ReadinessLevel::Attention
    } else {
        ReadinessLevel::Ready
    }
}

fn push_number(v: &mut Vec<char>, n: u128)
    ensures
        final(v)@ == old(v)@ + decimal_digits(n as nat),
{
    let d = to_decimal_u128(n);
    push_chars(v, &d);
}

fn count_failed(checks: &Vec<bool>) -> (r: usize)
    ensures
        r as nat == failed_count(checks@),
{
    let mut n: usize = 0;
    let mut i: usize = 0;
    while i < checks.len()
        invariant
            i <= checks@.len(),
            n <= i,
            n as nat == failed_count(checks@.take(i as int)),
        decreases checks.len() - i,
    {
        assert(checks@.take(i as int + 1).drop_last() == checks@.take(i as int));
        if !checks[i] {
            n = n + 1;
        }
        i = i + 1;
    }
    assert(checks@.take(checks@.len() as int) == checks@);
    n
}

fn store_check(d: &StoreHealth) -> (r: OperationalCheck)
    ensures
        check_view(r) == spec_store_check(*d),
{
    let mut v: Vec<char> = Vec::new();
    if d.healthy {
        push_str_chars(&mut v, "Хранилище доступно: проектов ");
        push_number(&mut v, d.project_count as u128);
        push_str_chars(&mut v, ", открытых задач ");
        push_number(&mut v, d.open_task_count as u128);
        OperationalCheck { id: "store", status: CheckStatus::Passed, summary: string_of(&v), action_tool: None }
    } else {
        push_str_chars(&mut v, "Хранилище требует внимания: ");
        let joined = join_exec(&d.issues, "; ");
        push_chars(&mut v, &joined);
        OperationalCheck { id: "store", status: CheckStatus::Failed, summary: string_of(&v), action_tool: Some("diagnose_store") }
    }
}

fn mcp_check(c: &SelfCheckHealth) -> (r: OperationalCheck)
    ensures
        check_view(r) == spec_mcp_check(*c),
{
    let mut v: Vec<char> = Vec::new();
    if c.passed {
        push_str_chars(&mut v, "Изолированный цикл и MCP-контракты пройдены: ");
        push_number(&mut v, c.checks.len() as u128);
        push_str_chars(&mut v, " проверок за ");
        push_number(&mut v, c.duration_ms);
        push_str_chars(&mut v, " мс");
        OperationalCheck { id: "mcp_surface", status: CheckStatus::Passed, summary: string_of(&v), action_tool: None }
    } else {
        push_str_chars(&mut v, "Не пройдено MCP-проверок: ");
        let failed = count_failed(&c.checks);
        push_number(&mut v, failed as u128);
        OperationalCheck { id: "mcp_surface", status: CheckStatus::Failed, summary: string_of(&v), action_tool: Some("run_self_check") }
    }
}

fn attachment_check(a: &AttachmentHealth) -> (r: OperationalCheck)
    ensures
        check_view(r) == spec_attachment_check(*a),
{
    let mut v: Vec<char> = Vec::new();
    if a.orphaned_files == 0 {
        push_str_chars(&mut v, "Вложения учтены: файлов ");
        push_number(&mut v, a.total_files as u128);
        push_str_chars(&mut v, ", потерянных ссылок нет");
        OperationalCheck { id: "attachments", status: CheckStatus::Passed, summary: string_of(&v), action_tool: None }
    } else {
        push_str_chars(&mut v, "Найдены неиспользуемые вложения: ");
        push_number(&mut v, a.orphaned_files as u128);
        push_str_chars(&mut v, " (");
        push_number(&mut v, a.orphaned_bytes as u128);
        push_str_chars(&mut v, " байт)");
        OperationalCheck { id: "attachments", status: CheckStatus::Attention, summary: string_of(&v), action_tool: Some("inspect_attachment_storage") }
    }
}

fn telegram_check(d: &StoreHealth, t: &TelegramHealth) -> (r: OperationalCheck)
    ensures
        check_view(r) == spec_telegram_check(*d, *t),
{
    if d.linked_chat_count == 0 {
        OperationalCheck { id: "telegram", status: CheckStatus::Passed, summary: String::from_str("Telegram-чаты не связаны; интеграция не требуется для локальных задач"), action_tool: None }
    } else if t.fresh && t.healthy_sync {
        OperationalCheck {
            id: "telegram",
            status: CheckStatus::Passed,
            summary: String::from_str("Telegram-входящие синхронизированы и готовы к разбору"),
            action_tool: if d.pending_inbox_count > 0 { Some("get_telegram_triage_batch") } else { None },
        }
    } else {
        OperationalCheck {
            id: "telegram",
            status: CheckStatus::Attention,
            summary: t.next_action.clone(),
            action_tool: if t.phase == SyncPhase::Queued {
                Some("get_telegram_sync_status")
            } else if !t.has_pending_request {
                Some("request_telegram_sync")
            } else {
                None
            },
        }
    }
}

/// The operational readiness of the workspace: four checks (store, MCP
/// surface, attachments, Telegram), whether an agent can work (no check
/// failed), and the overall level.
pub fn workspace_readiness(
    diagnostics: &StoreHealth,
    attachment_storage: &AttachmentHealth,
    telegram: &TelegramHealth,
    self_check: &SelfCheckHealth,
) -> (r: WorkspaceReadiness)
    ensures
        r.checks@.map_values(|c: OperationalCheck| check_view(c)) == spec_readiness_checks(*diagnostics, *attachment_storage, *telegram, *self_check),
        r.agent_ready == !exists|i: int| 0 <= i < 4 && (#[trigger] spec_readiness_checks(*diagnostics, *attachment_storage, *telegram, *self_check)[i]).1 == CheckStatus::Failed,
        r.level == spec_level(spec_readiness_checks(*diagnostics, *attachment_storage, *telegram, *self_check)),
{
    let c0 = store_check(diagnostics);
    let c1 = mcp_check(self_check);
    let c2 = attachment_check(attachment_storage);
    let c3 = telegram_check(diagnostics, telegram);
    let ghost views = seq![check_view(c0), check_view(c1), check_view(c2), check_view(c3)];
    let failed = c0.status == CheckStatus::Failed || c1.status == CheckStatus::Failed || c2.status == CheckStatus::Failed || c3.status == CheckStatus::Failed;
    let attention = c0.status == CheckStatus::Attention || c1.status == CheckStatus::Attention || c2.status == CheckStatus::Attention || c3.status == CheckStatus::Attention;
    let level = if failed {
        ReadinessLevel::Blocked
    } else if attention {
        ReadinessLevel::Attention
    } else {
        ReadinessLevel::Ready
    };
    let checks = vec![c0, c1, c2, c3];
    proof {
        assert(checks@.map_values(|c: OperationalCheck| check_view(c)) == views);
        if failed {
            if c0.status == CheckStatus::Failed { assert(views[0].1 == CheckStatus::Failed); }
            if c1.status == CheckStatus::Failed { assert(views[1].1 == CheckStatus::Failed); }
            if c2.status == CheckStatus::Failed { assert(views[2].1 == CheckStatus::Failed); }
            if c3.status == CheckStatus::Failed { assert(views[3].1 == CheckStatus::Failed); }
        }
        if attention {
            if c0.status == CheckStatus::Attention { assert(views[0].1 == CheckStatus::Attention); }
            if c1.status == CheckStatus::Attention { assert(views[1].1 == CheckStatus::Attention); }
            if c2.status == CheckStatus::Attention { assert(views[2].1 == CheckStatus::Attention); }
            if c3.status == CheckStatus::Attention { assert(views[3].1 == CheckStatus::Attention); }
        }
    }
    WorkspaceReadiness { level, agent_ready: !failed, checks }
}


/// The tools that the workspace brief suggests, in order: store diagnosis
/// when unhealthy; the attachment audit when files are orphaned; the sync
/// status while a sync is queued, else a sync request for stale linked
/// chats; the triage batch for pending inbox items; the chat list when
/// linked chats are fresh; the next task's work context, or else creating a
/// project (when there is none) or a task; the self-check when it failed;
/// and the activity journal when it has more entries.
pub open spec fn spec_workspace_brief_tools(
    d: StoreHealth,
    a: AttachmentHealth,
    t: TelegramHealth,
    self_check_passed: bool,
    priority_task_count: int,
    activity_remaining: int,
) -> Seq<Seq<char>> {
    let s1 = if !d.healthy { seq!["diagnose_store"@] } else { Seq::empty() };
    let s2 = if a.orphaned_files > 0 { s1.push("inspect_attachment_storage"@) } else { s1 };
    let s3 = if t.phase == SyncPhase::Queued {
        s2.push("get_telegram_sync_status"@)
    } else if !t.has_pending_request && !t.fresh && d.linked_chat_count > 0 {
        s2.push("request_telegram_sync"@)
    } else {
        s2
    };
    let s4 = if d.pending_inbox_count > 0 { s3.push("get_telegram_triage_batch"@) } else { s3 };
    let s5 = if t.fresh && d.linked_chat_count > 0 { s4.push("list_telegram_chats"@) } else { s4 };
    let s6 = if priority_task_count > 0 {
        s5.push("get_task_work_context"@)
    } else if d.project_count == 0 {
        s5.push("create_project"@)
    } else {
        s5.push("create_task"@)
    };
    let s7 = if !self_check_passed { s6.push("run_self_check"@) } else { s6 };
    if activity_remaining > 0 { s7.push("list_recent_activity"@) } else { s7 }
}

/// The tools that the workspace brief suggests.
pub fn workspace_brief_tools(
    diagnostics: &StoreHealth,
    attachment_storage: &AttachmentHealth,
    telegram: &TelegramHealth,
    self_check_passed: bool,
    priority_task_count: usize,
    activity_remaining: usize,
) -> (r: Vec<&'static str>)
    ensures
        crate::catalog::str_list(r@) == spec_workspace_brief_tools(
            *diagnostics,
            *attachment_storage,
            *telegram,
            self_check_passed,
            priority_task_count as int,
            activity_remaining as int,
        ),
{
    let mut v: Vec<&'static str> = Vec::new();
    if !diagnostics.healthy {
        v.push("diagnose_store");
    }
    if attachment_storage.orphaned_files > 0 {
        v.push("inspect_attachment_storage");
    }
    if telegram.phase == SyncPhase::Queued {
        v.push("get_telegram_sync_status");
    } else if !telegram.has_pending_request && !telegram.fresh && diagnostics.linked_chat_count > 0 {
        v.push("request_telegram_sync");
    }
    if diagnostics.pending_inbox_count > 0 {
        v.push("get_telegram_triage_batch");
    }
    if telegram.fresh && diagnostics.linked_chat_count > 0 {
        v.push("list_telegram_chats");
    }
    if priority_task_count > 0 {
        v.push("get_task_work_context");
    } else if diagnostics.project_count == 0 {
        v.push("create_project");
    } else {
        v.push("create_task");
    }
    if !self_check_passed {
        v.push("run_self_check");
    }
    if activity_remaining > 0 {
        v.push("list_recent_activity");
    }
    assert(crate::catalog::str_list(v@) =~= spec_workspace_brief_tools(
        *diagnostics,
        *attachment_storage,
        *telegram,
        self_check_passed,
        priority_task_count as int,
        activity_remaining as int,
    ));
    v
}

/// How many checks a self-check ran and how many failed.
pub fn self_check_counts(c: &SelfCheckHealth) -> (r: (usize, usize))
    ensures
        r.0 == c.checks@.len(),
        r.1 == failed_count(c.checks@),
{
    let mut failed: usize = 0;
    let mut i: usize = 0;
    while i < c.checks.len()
        invariant
            i <= c.checks@.len(),
            failed == failed_count(c.checks@.take(i as int)),
            failed <= i,
        decreases c.checks.len() - i,
    {
        assert(c.checks@.take(i + 1).drop_last() == c.checks@.take(i as int));
        if !c.checks[i] {
            failed = failed + 1;
        }
        i = i + 1;
    }
    assert(c.checks@.take(c.checks@.len() as int) == c.checks@);
    (c.checks.len(), failed)
}

} // verus!

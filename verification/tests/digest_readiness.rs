use flood_mcp::digest::{compact_task_output, task_digest, TaskSummary};
use flood_mcp::readiness::{
    self_check_counts, sync_phase_name, telegram_sync_output, workspace_brief_tools, workspace_readiness,
    AttachmentHealth, CheckStatus,
    ConnectorObservation, PendingSyncRequest, ReadinessLevel, SelfCheckHealth, StoreHealth, SyncObservation,
    SyncPhase, TelegramHealth,
};
use flood_mcp::vocab::{TaskStatus, Urgency};

fn summary(id: &str, status: TaskStatus, urgency: Urgency, at: i128) -> TaskSummary {
    TaskSummary {
        id: id.into(),
        project_id: "p1".into(),
        description: format!("# Task {id}\nbody"),
        urgency,
        status,
        updated_at: format!("t{at}"),
        updated_at_nanos: at,
        has_source: false,
        version: "v".into(),
    }
}

fn tasks() -> Vec<TaskSummary> {
    vec![
        summary("t1", TaskStatus::Open, Urgency::Normal, 10),
        summary("t2", TaskStatus::Open, Urgency::Urgent, 5),
        summary("t3", TaskStatus::Completed, Urgency::Urgent, 20),
        summary("t0", TaskStatus::Open, Urgency::Urgent, 5),
    ]
}

#[test]
fn task_digest_orders_counts_and_pages() {
    let titles = vec![("p1".to_string(), "Shop".to_string())];
    let first = task_digest(&tasks(), &titles, &Vec::new(), None, Some(2)).unwrap();
    let ids: Vec<&str> = first.tasks.iter().map(|t| t.id.as_str()).collect();
    assert_eq!(ids, vec!["t0", "t2"]);
    assert_eq!(first.next_cursor.as_deref(), Some("t2"));
    assert_eq!(first.remaining, 2);
    assert_eq!(first.tasks[0].project_title, "Shop");
    assert_eq!(first.tasks[0].title, "Task t0");
    let c = &first.counts;
    assert_eq!((c.total, c.open, c.completed, c.normal, c.important, c.urgent), (4, 3, 1, 1, 0, 3));
    let rest = task_digest(&tasks(), &titles, &Vec::new(), Some("t2"), Some(2)).unwrap();
    let ids: Vec<&str> = rest.tasks.iter().map(|t| t.id.as_str()).collect();
    assert_eq!(ids, vec!["t1", "t3"]);
    assert_eq!(rest.next_cursor, None);
    assert_eq!(rest.remaining, 0);
}

#[test]
fn task_digest_filters_and_refuses_unknown_names() {
    let urgent = task_digest(&tasks(), &Vec::new(), &vec!["urgent".to_string()], None, None).unwrap();
    assert_eq!(urgent.counts.total, 3);
    assert_eq!(urgent.tasks[0].project_title, "Неизвестный проект");
    let bad = task_digest(&tasks(), &Vec::new(), &vec!["soon".to_string()], None, None);
    assert_eq!(bad.err().unwrap(), "urgency должен быть normal, important или urgent");
    let lost = task_digest(&tasks(), &Vec::new(), &Vec::new(), Some("nope"), None);
    assert_eq!(lost.err().unwrap(), "cursor не найден в текущем дайджесте; начните заново");
}

#[test]
fn compact_task_output_takes_title_and_snippet() {
    let t = summary("t9", TaskStatus::Open, Urgency::Important, 1);
    let c = compact_task_output(&t, "Shop".into());
    assert_eq!(c.title, "Task t9");
    assert_eq!(c.snippet, "# Task t9 body");
    assert_eq!(c.project_title, "Shop");
}

#[test]
fn telegram_sync_phases() {
    let fresh_status = Some(SyncObservation { request_id: None, age_seconds: 10 });
    let done = telegram_sync_output(&None, &fresh_status, &None);
    assert_eq!(done.phase, SyncPhase::Completed);
    assert!(done.fresh);
    assert_eq!(done.next_action, "Данные свежие. Можно разбирать get_telegram_triage_batch");
    assert_eq!(sync_phase_name(done.phase), "completed");
    let never = telegram_sync_output(&None, &None, &None);
    assert_eq!(never.phase, SyncPhase::NeverSynced);
    assert!(!never.fresh);
    let unconfigured = Some(ConnectorObservation { step: "unconfigured".into(), error: None, age_seconds: 1 });
    let blocked = telegram_sync_output(&unconfigured, &fresh_status, &None);
    assert_eq!(blocked.phase, SyncPhase::ConnectorNotReady);
    assert_eq!(blocked.next_action, "Подключите Telegram в настройках flood.md");
    let pending = Some(PendingSyncRequest { id: "r1".into(), age_seconds: 5 });
    let queued = telegram_sync_output(&None, &fresh_status, &pending);
    assert_eq!(queued.phase, SyncPhase::Queued);
    assert!(!queued.fresh);
    let answered = Some(SyncObservation { request_id: Some("r1".into()), age_seconds: 10 });
    let acked = telegram_sync_output(&None, &answered, &pending);
    assert_eq!(acked.phase, SyncPhase::CompletedPendingAck);
    assert!(acked.request_completed);
    assert!(acked.fresh);
}

#[test]
fn workspace_readiness_levels() {
    let store = StoreHealth {
        healthy: true,
        project_count: 2,
        open_task_count: 5,
        issues: Vec::new(),
        linked_chat_count: 0,
        pending_inbox_count: 0,
    };
    let files = AttachmentHealth { total_files: 3, orphaned_files: 0, orphaned_bytes: 0 };
    let telegram = TelegramHealth {
        fresh: true,
        healthy_sync: true,
        phase: SyncPhase::Completed,
        has_pending_request: false,
        next_action: String::new(),
    };
    let check = SelfCheckHealth { passed: true, checks: vec![true, true], duration_ms: 12 };
    let ready = workspace_readiness(&store, &files, &telegram, &check);
    assert_eq!(ready.level, ReadinessLevel::Ready);
    assert!(ready.agent_ready);
    assert_eq!(ready.checks[0].summary, "Хранилище доступно: проектов 2, открытых задач 5");
    assert_eq!(ready.checks[1].summary, "Изолированный цикл и MCP-контракты пройдены: 2 проверок за 12 мс");
    let orphaned = AttachmentHealth { total_files: 3, orphaned_files: 1, orphaned_bytes: 40 };
    let attention = workspace_readiness(&store, &orphaned, &telegram, &check);
    assert_eq!(attention.level, ReadinessLevel::Attention);
    assert_eq!(attention.checks[2].status, CheckStatus::Attention);
    assert_eq!(attention.checks[2].summary, "Найдены неиспользуемые вложения: 1 (40 байт)");
    let failed = SelfCheckHealth { passed: false, checks: vec![true, false, false], duration_ms: 1 };
    let blocked = workspace_readiness(&store, &files, &telegram, &failed);
    assert_eq!(blocked.level, ReadinessLevel::Blocked);
    assert!(!blocked.agent_ready);
    assert_eq!(blocked.checks[1].summary, "Не пройдено MCP-проверок: 2");
    assert_eq!(blocked.checks[1].action_tool, Some("run_self_check"));
}

fn health(healthy: bool, projects: usize, linked: usize, inbox: usize) -> StoreHealth {
    StoreHealth {
        healthy,
        project_count: projects,
        open_task_count: 0,
        issues: Vec::new(),
        linked_chat_count: linked,
        pending_inbox_count: inbox,
    }
}

fn sync(fresh: bool, phase: SyncPhase, pending: bool) -> TelegramHealth {
    TelegramHealth { fresh, healthy_sync: true, phase, has_pending_request: pending, next_action: String::new() }
}

#[test]
fn workspace_brief_suggests_tools_for_what_needs_attention() {
    let files = AttachmentHealth { total_files: 1, orphaned_files: 2, orphaned_bytes: 9 };
    assert_eq!(
        workspace_brief_tools(&health(false, 0, 1, 3), &files, &sync(false, SyncPhase::Completed, false), false, 0, 4),
        vec![
            "diagnose_store",
            "inspect_attachment_storage",
            "request_telegram_sync",
            "get_telegram_triage_batch",
            "create_project",
            "run_self_check",
            "list_recent_activity",
        ]
    );
    let clean = AttachmentHealth { total_files: 1, orphaned_files: 0, orphaned_bytes: 0 };
    assert_eq!(
        workspace_brief_tools(&health(true, 2, 1, 0), &clean, &sync(true, SyncPhase::Queued, true), true, 3, 0),
        vec!["get_telegram_sync_status", "list_telegram_chats", "get_task_work_context"]
    );
    assert_eq!(
        workspace_brief_tools(&health(true, 2, 0, 0), &clean, &sync(false, SyncPhase::NeverSynced, false), true, 0, 0),
        vec!["create_task"]
    );
}

#[test]
fn self_check_counts_failed_checks() {
    let c = SelfCheckHealth { passed: false, checks: vec![true, false, true, false], duration_ms: 1 };
    assert_eq!(self_check_counts(&c), (4, 2));
}

#[test]
fn digest_pages_follow_one_another_by_priority() {
    let tasks = vec![
        summary("normal", TaskStatus::Open, Urgency::Normal, 3),
        summary("important", TaskStatus::Open, Urgency::Important, 2),
        summary("urgent", TaskStatus::Open, Urgency::Urgent, 1),
    ];
    let first = task_digest(&tasks, &Vec::new(), &Vec::new(), None, Some(2)).unwrap();
    assert_eq!(first.counts.total, 3);
    assert_eq!(first.counts.urgent, 1);
    assert_eq!(first.tasks[0].urgency, Urgency::Urgent);
    assert_eq!(first.tasks[1].urgency, Urgency::Important);
    assert_eq!(first.remaining, 1);
    let cursor = first.next_cursor.clone().unwrap();
    let second = task_digest(&tasks, &Vec::new(), &Vec::new(), Some(cursor.as_str()), Some(2)).unwrap();
    assert_eq!(second.tasks.len(), 1);
    assert_eq!(second.tasks[0].urgency, Urgency::Normal);
    assert_eq!(second.remaining, 0);
    assert_eq!(second.next_cursor, None);
}

use flood_mcp::updates::{
    feed_order, feed_refusal_message, feed_source_plan, feed_truncated, github_source_has_more, timeline_order,
    updates_budget, updates_tools, FeedSourceAction, FeedSourceFacts, SignalKey, TimelineKey,
};

#[test]
fn updates_budget_shares_fifty_messages_fairly() {
    let b = updates_budget(3, None);
    assert_eq!((b.scanned, b.per_chat), (3, 10));
    let b = updates_budget(30, Some(20));
    assert_eq!((b.scanned, b.per_chat), (25, 2));
    let b = updates_budget(0, Some(0));
    assert_eq!((b.scanned, b.per_chat), (0, 1));
    let b = updates_budget(4, Some(99));
    assert_eq!((b.scanned, b.per_chat), (4, 12));
}

#[test]
fn timeline_orders_by_time_chat_and_message() {
    let keys = vec![
        TimelineKey { sent_at_nanos: 5, chat_id: 2, message_id: 1 },
        TimelineKey { sent_at_nanos: 5, chat_id: 1, message_id: 9 },
        TimelineKey { sent_at_nanos: 1, chat_id: 3, message_id: 3 },
        TimelineKey { sent_at_nanos: 5, chat_id: 1, message_id: 2 },
    ];
    assert_eq!(timeline_order(&keys), vec![2, 3, 1, 0]);
}

#[test]
fn updates_tools_follow_cache_and_messages() {
    assert_eq!(
        updates_tools(false, 0, false, 1, true, true),
        vec![
            "request_telegram_sync",
            "request_telegram_image",
            "read_telegram_message_context",
            "preview_project_telegram_tasks",
            "create_task_from_telegram_discussion",
            "acknowledge_telegram_updates"
        ]
    );
    assert!(updates_tools(true, 0, false, 1, false, false).is_empty());
    assert!(updates_tools(false, 2, true, 1, false, false).is_empty());
}

#[test]
fn feed_order_puts_latest_first_and_keeps_fifty() {
    let key = |t: i128, c: &str, e: &str| SignalKey { occurred_at_nanos: t, connector_id: c.into(), external_id: e.into() };
    let keys = vec![key(1, "telegram", "a"), key(3, "telegram", "b"), key(3, "github", "z"), key(3, "github", "c")];
    let sel = feed_order(&keys);
    assert_eq!(sel.positions, vec![3, 2, 1, 0]);
    assert!(!sel.truncated);
    let many: Vec<SignalKey> = (0..60).map(|i| key(i, "t", "x")).collect();
    let sel = feed_order(&many);
    assert_eq!(sel.positions.len(), 50);
    assert_eq!(sel.positions[0], 59);
    assert!(sel.truncated);
}

fn gh(agent_access: bool, repository_parsed: bool) -> FeedSourceFacts {
    FeedSourceFacts { agent_access, repository_parsed }
}

#[test]
fn feed_reads_chats_first_and_gates_github_sources() {
    let github = vec![gh(false, true), gh(true, false), gh(true, true)];
    let plan = feed_source_plan(2, &github, true, None);
    assert_eq!(plan.telegram_read, 2);
    assert_eq!(
        plan.github_actions,
        vec![FeedSourceAction::RefuseAccess, FeedSourceAction::Skip, FeedSourceAction::ReadGitHub]
    );
    assert_eq!(plan.limit, 5);
    assert!(!plan.truncated);
    let plan = feed_source_plan(0, &github, false, Some(0));
    assert_eq!(
        plan.github_actions,
        vec![FeedSourceAction::RefuseAccess, FeedSourceAction::RefuseConnector, FeedSourceAction::RefuseConnector]
    );
    assert_eq!(plan.limit, 1);
    assert_eq!(feed_source_plan(0, &github, true, Some(50)).limit, 10);
    assert_eq!(feed_source_plan(0, &github, true, Some(7)).limit, 7);
}

#[test]
fn feed_reads_at_most_twelve_sources() {
    let github: Vec<FeedSourceFacts> = (0..5).map(|_| gh(true, true)).collect();
    let plan = feed_source_plan(10, &github, true, None);
    assert_eq!(plan.telegram_read, 10);
    assert_eq!(plan.github_actions.len(), 2);
    assert!(plan.truncated);
    let plan = feed_source_plan(15, &github, true, None);
    assert_eq!(plan.telegram_read, 12);
    assert!(plan.github_actions.is_empty());
    assert!(plan.truncated);
    let plan = feed_source_plan(7, &github, true, None);
    assert_eq!(plan.github_actions.len(), 5);
    assert!(!plan.truncated);
}

#[test]
fn feed_refusals_and_has_more() {
    assert_eq!(feed_refusal_message(FeedSourceAction::RefuseAccess), Some("Доступ агента к источнику не разрешён"));
    assert_eq!(
        feed_refusal_message(FeedSourceAction::RefuseConnector),
        Some("GitHub не подключён или требует повторного входа")
    );
    assert_eq!(feed_refusal_message(FeedSourceAction::ReadGitHub), None);
    assert!(github_source_has_more(10, 5));
    assert!(!github_source_has_more(9, 5));
    assert!(feed_truncated(false, true, false));
    assert!(!feed_truncated(false, false, false));
}

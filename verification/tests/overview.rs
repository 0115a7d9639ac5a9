use flood_mcp::agents::AgentRunState;
use flood_mcp::overview::{project_overview, OverviewRun, OverviewTask};
use flood_mcp::vocab::{TaskStatus, Urgency};

const DAY: i128 = 86_400_000_000_000;

fn task(status: TaskStatus, urgency: Urgency, created_days_ago: i128, updated_days_ago: i128) -> OverviewTask {
    let now = 1000 * DAY;
    OverviewTask {
        status,
        urgency,
        created_at_nanos: now - created_days_ago * DAY,
        updated_at_nanos: now - updated_days_ago * DAY,
    }
}

#[test]
fn project_overview_sorts_and_sections_tasks() {
    let tasks = vec![
        task(TaskStatus::Open, Urgency::Normal, 30, 20),    // 0: ready, stale
        task(TaskStatus::Open, Urgency::Urgent, 2, 1),      // 1: ready, recent
        task(TaskStatus::Completed, Urgency::Normal, 3, 2), // 2: completed recently
        task(TaskStatus::Open, Urgency::Important, 40, 3),  // 3: blocked
    ];
    let ready = vec![true, true, false, false];
    let runs = vec![
        OverviewRun { project_id: "p1".into(), state: AgentRunState::Failed, updated_at_nanos: 5 },
        OverviewRun { project_id: "p1".into(), state: AgentRunState::Running, updated_at_nanos: 9 },
        OverviewRun { project_id: "p2".into(), state: AgentRunState::NeedsInput, updated_at_nanos: 9 },
        OverviewRun { project_id: "p1".into(), state: AgentRunState::NeedsInput, updated_at_nanos: 7 },
    ];
    let o = project_overview("p1", &tasks, &ready, &runs, 1000 * DAY, None, None, None);
    assert_eq!(o.period_started_at_nanos, 993 * DAY);
    assert_eq!(o.stale_before_nanos, 986 * DAY);
    assert_eq!(o.ready_now, vec![1, 0]);
    assert_eq!(o.blocked, vec![3]);
    assert_eq!(o.stale, vec![0]);
    assert_eq!(o.created_recently, vec![1, 2]);
    assert_eq!(o.completed_recently, vec![2]);
    assert_eq!(o.agent_attention, vec![3, 0]);
    assert_eq!(o.counts.open, 3);
    assert_eq!(o.counts.completed, 1);
    assert!(o.truncated_sections.is_empty());
    assert_eq!(o.suggested_tools, vec!["get_task_work_context", "get_project_agent_queue", "queue_project_for_agent"]);
    let small = project_overview("p1", &tasks, &ready, &runs, 1000 * DAY, Some(100), Some(0), Some(1));
    assert_eq!(small.ready_now, vec![1]);
    assert_eq!(small.truncated_sections, vec!["ready_now", "stale", "created_recently", "agent_attention"]);
    assert_eq!(small.period_started_at_nanos, 910 * DAY);
    assert_eq!(small.stale_before_nanos, 999 * DAY);
}

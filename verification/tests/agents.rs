use flood_mcp::agents::{
    agent_queue_limit, agent_queue_listing, agent_queue_prefix, plan_agent_queue, prior_batch,
    project_queue_decision, queue_request_id, reuse_agent_run, task_create_agent_request_id, task_is_busy,
    task_queue_check, AgentRunRef, AgentRunState, ProjectQueueDecision,
};

fn run(project: &str, task: &str, request: Option<&str>, state: AgentRunState, at: i128) -> AgentRunRef {
    AgentRunRef {
        project_id: project.into(),
        task_id: task.into(),
        request_id: request.map(|s| s.to_string()),
        state,
        created_at_nanos: at,
    }
}

#[test]
fn agent_queue_listing_sorts_counts_and_suggests() {
    let runs = vec![
        run("p1", "t1", None, AgentRunState::NeedsInput, 30),
        run("p2", "t9", None, AgentRunState::Queued, 5),
        run("p1", "t2", None, AgentRunState::Accepted, 10),
        run("p1", "t3", None, AgentRunState::Queued, 10),
        run("p1", "t4", None, AgentRunState::ReadyForReview, 20),
    ];
    let all = agent_queue_listing("p1", &runs, false, None);
    assert_eq!(all.positions, vec![2, 3, 4, 0]);
    assert_eq!(all.total, 4);
    assert_eq!(all.remaining, 0);
    assert_eq!(all.states.needs_input, 1);
    assert_eq!(all.states.accepted, 1);
    assert_eq!(all.states.queued, 1);
    assert_eq!(all.next_actions, vec!["answer_agent_run", "accept_agent_run", "get_project_agent_queue"]);
    let open = agent_queue_listing("p1", &runs, true, Some(2));
    assert_eq!(open.positions, vec![3, 4]);
    assert_eq!(open.total, 3);
    assert_eq!(open.remaining, 1);
    let none = agent_queue_listing("p3", &runs, false, None);
    assert_eq!(none.next_actions, vec!["queue_project_for_agent"]);
}

#[test]
fn queue_request_id_is_trimmed_and_bounded() {
    assert_eq!(queue_request_id("  req-1 ").unwrap(), "req-1");
    assert_eq!(
        queue_request_id("   ").err().unwrap(),
        "request_id обязателен и не должен превышать 200 символов"
    );
    assert!(queue_request_id(&"x".repeat(201)).is_err());
    assert!(queue_request_id(&"я".repeat(200)).is_ok());
}

#[test]
fn agent_queue_limit_defaults_to_five_within_one_to_twelve() {
    assert_eq!(agent_queue_limit(None), 5);
    assert_eq!(agent_queue_limit(Some(0)), 1);
    assert_eq!(agent_queue_limit(Some(40)), 12);
    assert_eq!(agent_queue_limit(Some(7)), 7);
}

#[test]
fn agent_queue_prefix_is_a_digest_of_project_and_request() {
    assert_eq!(agent_queue_prefix("p1", "req-1"), "project-agent:30a65da728b947aeba450453:");
}

#[test]
fn repeated_queue_request_finds_its_earlier_runs() {
    let prefix = "project-agent:abc:";
    let runs = vec![
        run("p1", "t2", Some("project-agent:abc:t2"), AgentRunState::Queued, 9),
        run("p1", "t1", Some("project-agent:abc:t1"), AgentRunState::Queued, 3),
        run("p2", "t3", Some("project-agent:abc:t3"), AgentRunState::Queued, 1),
        run("p1", "t4", Some("other"), AgentRunState::Queued, 1),
        run("p1", "t5", None, AgentRunState::Queued, 1),
    ];
    assert_eq!(prior_batch("p1", &runs, prefix), vec![1, 0]);
}

#[test]
fn plan_agent_queue_skips_busy_and_blocked_tasks() {
    let runs = vec![
        run("p1", "t1", None, AgentRunState::Running, 1),
        run("p1", "t2", None, AgentRunState::Accepted, 1),
    ];
    assert!(task_is_busy("t1", &runs));
    assert!(!task_is_busy("t2", &runs));
    let tasks: Vec<String> = vec!["t1".into(), "t2".into(), "t3".into(), "t4".into(), "t5".into()];
    let ready = vec![true, true, false, true, true];
    let plan = plan_agent_queue(&tasks, &runs, &ready, 2, "project-agent:x:");
    assert_eq!(plan.selected, vec![1, 3]);
    assert_eq!(plan.run_request_ids, vec!["project-agent:x:t2", "project-agent:x:t4"]);
    assert_eq!(plan.skipped_busy, 1);
    assert_eq!(plan.skipped_blocked, 1);
    assert_eq!(plan.remaining_ready, 1);
}

#[test]
fn queueing_refuses_closed_and_blocked_tasks() {
    assert!(task_queue_check(false, false, true, &vec![], &vec![]).is_ok());
    assert_eq!(
        task_queue_check(true, false, true, &vec![], &vec![]).unwrap_err(),
        "Завершённую или удалённую задачу нельзя передать агенту"
    );
    assert_eq!(
        task_queue_check(false, false, false, &vec!["# Fix login\nmore".to_string()], &vec!["T-9".to_string()]).unwrap_err(),
        "Задача пока заблокирована: Fix login, T-9"
    );
    assert_eq!(
        task_queue_check(false, false, false, &vec![], &vec![]).unwrap_err(),
        "Задача пока заблокирована: условия продолжения не выполнены"
    );
}

#[test]
fn task_creation_reuses_only_its_own_agent_run() {
    assert_eq!(task_create_agent_request_id("req-1"), "task-create-agent:req-1");
    assert_eq!(reuse_agent_run(Some("T1"), "T1"), Ok(true));
    assert_eq!(reuse_agent_run(None, "T1"), Ok(false));
    assert_eq!(reuse_agent_run(Some("T2"), "T1"), Err("request_id запуска уже связан с другой задачей".to_string()));
}

#[test]
fn repeating_a_project_queue_request_returns_the_first_batch() {
    let tasks: Vec<String> = vec!["t1".into(), "t2".into()];
    let ready = vec![true, true];
    let first = match project_queue_decision("p1", "project-batch-one", &Vec::new(), &tasks, &ready, 1) {
        ProjectQueueDecision::Fresh(plan) => plan,
        ProjectQueueDecision::Repeated(_) => panic!("no earlier batch exists"),
    };
    assert_eq!(first.selected, vec![0]);
    let stored = vec![
        run("p1", "t9", Some("unrelated"), AgentRunState::Queued, 1),
        run("p1", "t1", Some(first.run_request_ids[0].as_str()), AgentRunState::Queued, 5),
    ];
    let more: Vec<String> = vec!["t1".into(), "t2".into(), "t3".into()];
    match project_queue_decision("p1", "project-batch-one", &stored, &more, &vec![true, true, true], 12) {
        ProjectQueueDecision::Repeated(runs) => assert_eq!(runs, vec![1]),
        ProjectQueueDecision::Fresh(_) => panic!("the repeat must return the first batch"),
    }
}

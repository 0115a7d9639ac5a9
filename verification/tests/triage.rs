use flood_mcp::triage::{
    check_triage_decision, confirm_plan, confirmation_token_given, nonblank, proposal_agent_request_id,
    proposal_plan_token, proposal_warning, sorted_unique_ids, task_description, triage_apply_step,
    triage_item_verdict, triage_plan_token, CandidateFacts, CandidateStatus, PlanKind, ProposalPlanner,
    TriageApplyTally, TriagePlanner, TriageStep,
};
use flood_mcp::vocab::Urgency;

fn pending(media: usize) -> CandidateFacts {
    CandidateFacts { status: CandidateStatus::Pending, media_count: media, has_linked_task: false }
}

#[test]
fn task_description_builds_markdown_from_title_and_notes() {
    assert_eq!(task_description(Some("  Fix  "), Some(" steps "), None), Ok(Some("# Fix\n\nsteps".to_string())));
    assert_eq!(task_description(Some("Fix"), Some("   "), None), Ok(Some("# Fix".to_string())));
    assert_eq!(task_description(Some("x"), None, Some("given")), Ok(Some("given".to_string())));
    assert_eq!(task_description(None, Some("n"), None), Ok(None));
    assert_eq!(task_description(Some("  "), None, None), Err("title не может быть пустым".to_string()));
    assert_eq!(nonblank(Some("  a ")), Some("a".to_string()));
    assert_eq!(nonblank(Some("  ")), None);
}

#[test]
fn create_decision_needs_title_urgency_and_pending_candidate() {
    let none = check_triage_decision("create_task", &None, &None, "normal", &pending(0));
    assert_eq!(none.error.as_deref(), Some("title обязателен для action=create_task"));
    let long = check_triage_decision("create_task", &Some("x".repeat(121)), &None, "normal", &pending(0));
    assert_eq!(long.error.as_deref(), Some("title не должен превышать 120 символов"));
    let bad = check_triage_decision("create_task", &Some("T".into()), &None, "soon", &pending(0));
    assert_eq!(bad.error.as_deref(), Some("urgency должен быть normal, important или urgent"));
    let ok = check_triage_decision("create_task", &Some("T".into()), &None, "urgent", &pending(2));
    assert_eq!(ok.error, None);
    assert_eq!(ok.urgency, Some(Urgency::Urgent));
    assert_eq!(
        ok.warning.as_deref(),
        Some("медиафайлов 2: desktop скачает их сейчас или при следующем запуске")
    );
    let dismissed = CandidateFacts { status: CandidateStatus::Dismissed, media_count: 0, has_linked_task: false };
    let refused = check_triage_decision("create_task", &Some("T".into()), &None, "normal", &dismissed);
    assert_eq!(refused.error.as_deref(), Some("кандидат пропущен; сначала верните его во входящие"));
    let imported = CandidateFacts { status: CandidateStatus::Imported, media_count: 0, has_linked_task: true };
    let again = check_triage_decision("create_task", &Some("T".into()), &None, "normal", &imported);
    assert_eq!(again.error, None);
    assert_eq!(again.warning.as_deref(), Some("задача уже существует; применение вернёт её без дубля"));
}

#[test]
fn dismiss_keep_and_unknown_actions() {
    let imported = CandidateFacts { status: CandidateStatus::Imported, media_count: 0, has_linked_task: true };
    assert_eq!(
        check_triage_decision("dismiss", &None, &None, "normal", &imported).error.as_deref(),
        Some("импортированный кандидат нельзя пропустить: задача уже существует")
    );
    let dismissed = CandidateFacts { status: CandidateStatus::Dismissed, media_count: 0, has_linked_task: false };
    assert_eq!(
        check_triage_decision("dismiss", &None, &None, "normal", &dismissed).warning.as_deref(),
        Some("кандидат уже пропущен; действие идемпотентно")
    );
    assert_eq!(
        check_triage_decision("keep", &None, &None, "normal", &dismissed).error.as_deref(),
        Some("оставить можно только необработанный кандидат")
    );
    assert!(check_triage_decision("keep", &None, &None, "normal", &pending(0)).error.is_none());
    assert_eq!(
        check_triage_decision("drop", &None, &None, "normal", &pending(0)).error.as_deref(),
        Some("action должен быть create_task, dismiss или keep")
    );
}

#[test]
fn triage_verdict_for_repeats_and_unreadable_candidates() {
    let r = triage_item_verdict(true, &Ok(pending(0)), "keep", &None, &None, "normal");
    assert_eq!(r.error.as_deref(), Some("один кандидат нельзя обработать дважды в одном плане"));
    let e = triage_item_verdict(false, &Err("нет".into()), "keep", &None, &None, "normal");
    assert_eq!(e.error.as_deref(), Some("не удалось прочитать Telegram-кандидат: нет"));
}

#[test]
fn triage_planner_counts_decisions() {
    assert_eq!(TriagePlanner::new(0).err().unwrap(), "передайте от 1 до 25 решений");
    assert!(TriagePlanner::new(26).is_err());
    let mut p = TriagePlanner::new(3).unwrap();
    assert!(!p.is_repeat("c1"));
    assert!(p.is_repeat("c1"));
    p.record("create_task", true);
    p.record("dismiss", true);
    p.record("keep", false);
    let c = p.counts();
    assert_eq!((c.creates, c.dismisses, c.keeps, c.invalid), (1, 1, 0, 1));
}

#[test]
fn proposal_planner_checks_fields_and_overlaps() {
    assert_eq!(ProposalPlanner::new(13).err().unwrap(), "передайте от 1 до 12 предлагаемых задач");
    let mut p = ProposalPlanner::new(4).unwrap();
    let ok = p.check_fields("r1", "Title", &None, "important", 3);
    assert_eq!(ok.error, None);
    assert_eq!(ok.urgency, Some(Urgency::Important));
    let repeated = p.check_fields("r1", "Title", &None, "normal", 0);
    assert_eq!(repeated.error.as_deref(), Some("request_id нельзя повторять внутри одного плана"));
    let empty_title = p.check_fields("r2", "", &None, "normal", 0);
    assert_eq!(empty_title.error.as_deref(), Some("title должен содержать от 1 до 120 символов"));
    let many = p.check_fields("r3", "T", &None, "normal", 21);
    assert_eq!(many.error.as_deref(), Some("context_message_ids может содержать не более 20 ID"));
    let empty_id = p.check_fields("", "T", &None, "normal", 0);
    assert_eq!(empty_id.error.as_deref(), Some("request_id должен содержать от 1 до 200 символов"));
    assert!(!p.claim_messages(7, &vec![1, 2]));
    assert!(p.claim_messages(7, &vec![3, 2]));
    assert!(!p.claim_messages(8, &vec![1]));
    p.record(true, false);
    p.record(true, true);
    p.record(false, false);
    let c = p.counts();
    assert_eq!((c.creates, c.already_existing, c.invalid), (1, 1, 1));
}

#[test]
fn proposal_warning_prefers_the_existing_task() {
    assert_eq!(
        proposal_warning(Some("Баг"), 3).as_deref(),
        Some("задача «Баг» уже связана с этим обсуждением; применение вернёт её без дубля")
    );
    assert_eq!(
        proposal_warning(None, 1).as_deref(),
        Some("медиафайлов 1: desktop скачает их сейчас или при следующем запуске")
    );
    assert_eq!(proposal_warning(None, 0), None);
}

#[test]
fn sorted_unique_ids_sorts_and_dedups() {
    assert_eq!(sorted_unique_ids(&vec![5, -1, 5, 3, -1]), vec![-1, 3, 5]);
    assert_eq!(sorted_unique_ids(&Vec::new()), Vec::<i64>::new());
}

#[test]
fn plan_tokens_are_digests_of_fingerprints() {
    assert_eq!(
        triage_plan_token(&b"[1,2]".to_vec()),
        "94eb6c0c46c33c2e2d38c32e751595ec0757a6784eaaefe78b22b9976b28aa39"
    );
    assert_eq!(
        proposal_plan_token("p1", true, &b"{}".to_vec()),
        "e6bddac4cb9f2ebee53814865bbd3073001797d290f98647bfb4b4e8a612b801"
    );
}

#[test]
fn confirmation_is_checked_against_the_rebuilt_plan() {
    assert_eq!(
        confirmation_token_given(PlanKind::Triage, "  ").err().unwrap(),
        "сначала вызовите preview_telegram_triage и передайте confirmation_token после подтверждения пользователя"
    );
    assert_eq!(confirmation_token_given(PlanKind::ProjectTasks, " t ").unwrap(), "t");
    assert_eq!(
        confirm_plan(PlanKind::Triage, "t", false, 2, &None).err().unwrap(),
        "план содержит 2 некорректных решений; повторите preview_telegram_triage"
    );
    assert_eq!(
        confirm_plan(PlanKind::ProjectTasks, "t", true, 0, &Some("u".into())).err().unwrap(),
        "confirmation_token устарел или относится к другому плану; повторите preview_project_telegram_tasks"
    );
    assert_eq!(confirm_plan(PlanKind::Triage, "t", true, 0, &Some("t".into())), Ok(()));
}

#[test]
fn triage_apply_step_dispatches_actions() {
    assert!(matches!(triage_apply_step(false, "create_task", true), TriageStep::CreateTask));
    assert!(matches!(triage_apply_step(false, "dismiss", false), TriageStep::Dismiss));
    assert!(matches!(triage_apply_step(false, "keep", false), TriageStep::Keep));
    match triage_apply_step(true, "keep", false) {
        TriageStep::Fail(e) => assert_eq!(e, "один кандидат нельзя обработать дважды в одной порции"),
        _ => panic!("expected a failure"),
    }
    match triage_apply_step(false, "create_task", false) {
        TriageStep::Fail(e) => assert_eq!(e, "title обязателен для action=create_task"),
        _ => panic!("expected a failure"),
    }
    assert_eq!(proposal_agent_request_id("r1"), "telegram-task-agent:r1");
}

#[test]
fn triage_plan_is_ready_only_without_invalid_decisions() {
    let mut p = TriagePlanner::new(2).unwrap();
    p.record("create_task", true);
    p.record("keep", true);
    let o = p.outcome(&b"[]".to_vec());
    assert!(o.ready);
    assert_eq!((o.creates, o.dismisses, o.keeps, o.invalid), (1, 0, 1, 0));
    assert_eq!(
        o.confirmation_token.as_deref(),
        Some("1235f642339e1dc58585b557317daa6244131870718ed8681f5cc81f503de4cf")
    );
    p.record("dismiss", false);
    let o = p.outcome(&b"[]".to_vec());
    assert!(!o.ready);
    assert_eq!(o.invalid, 1);
    assert_eq!(o.confirmation_token, None);
}

#[test]
fn proposal_plan_is_ready_only_without_invalid_proposals() {
    let mut p = ProposalPlanner::new(3).unwrap();
    p.record(true, false);
    p.record(true, true);
    let o = p.outcome("p1", true, &b"[]".to_vec());
    assert!(o.ready);
    assert_eq!((o.creates, o.already_existing, o.invalid), (1, 1, 0));
    assert_eq!(
        o.confirmation_token.as_deref(),
        Some("bbb7705bbf72bb4332072f07b6fc9d59fb3f9fe93aaa66ea1b17746c16a74045")
    );
    p.record(false, false);
    let o = p.outcome("p1", true, &b"[]".to_vec());
    assert!(!o.ready);
    assert_eq!(o.confirmation_token, None);
}

#[test]
fn apply_tally_counts_each_decision_once() {
    let mut t = TriageApplyTally::new();
    t.record(&triage_apply_step(false, "create_task", true), true);
    t.record(&triage_apply_step(false, "dismiss", false), true);
    t.record(&triage_apply_step(false, "keep", false), false);
    t.record(&triage_apply_step(true, "keep", false), true);
    t.record(&triage_apply_step(false, "archive", false), true);
    assert_eq!((t.created, t.dismissed, t.kept, t.failed), (1, 1, 0, 3));
}

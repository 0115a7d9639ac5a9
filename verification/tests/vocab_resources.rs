use flood_mcp::decimal::{parse_u64, parse_usize, to_decimal, to_decimal_u128, to_decimal_u64};
use flood_mcp::resources::{
    parse_flood_resource_uri, parse_resource_cursor, project_context_markdown, project_context_uri,
    project_material_markdown, project_material_uri, resource_cursor, resource_page, FloodResource,
};
use flood_mcp::vocab::{
    parse_automation_outcome, parse_automation_state_filter, AutomationEventOutcome, AutomationEventState,
    parse_source_media_kind, parse_status, parse_task_relation_kind, parse_urgency, task_status_rank,
    task_urgency_rank, workspace_kind_from_uri, workspace_kind_uri_segment, ProjectWorkspaceItemKind,
    SourceMediaKind, TaskRelationKind, TaskStatus, Urgency,
};

fn chars(s: &str) -> Vec<char> {
    s.chars().collect()
}

#[test]
fn vocabulary_parses_names_and_refuses_others() {
    assert_eq!(parse_urgency("important"), Ok(Urgency::Important));
    assert_eq!(parse_urgency("Important"), Err("urgency должен быть normal, important или urgent".to_string()));
    assert_eq!(parse_status("completed"), Ok(TaskStatus::Completed));
    assert_eq!(parse_status("done"), Err("status должен быть open или completed".to_string()));
    assert_eq!(parse_task_relation_kind("  blocked_by "), Ok(TaskRelationKind::BlockedBy));
    assert!(parse_task_relation_kind("parent").is_err());
    assert_eq!(parse_source_media_kind("voice"), Ok(SourceMediaKind::Voice));
    assert!(parse_source_media_kind("gif").is_err());
}

#[test]
fn ranks_put_open_and_urgent_first() {
    assert!(task_status_rank(&TaskStatus::Open) < task_status_rank(&TaskStatus::Completed));
    assert!(task_urgency_rank(&Urgency::Urgent) < task_urgency_rank(&Urgency::Important));
    assert!(task_urgency_rank(&Urgency::Important) < task_urgency_rank(&Urgency::Normal));
}

#[test]
fn workspace_kinds_round_trip_through_uri_segments() {
    for kind in [ProjectWorkspaceItemKind::Document, ProjectWorkspaceItemKind::Rule, ProjectWorkspaceItemKind::Skill] {
        assert_eq!(workspace_kind_from_uri(workspace_kind_uri_segment(kind)), Some(kind));
    }
    assert_eq!(workspace_kind_uri_segment(ProjectWorkspaceItemKind::Rule), "rules");
    assert_eq!(workspace_kind_from_uri("rule"), None);
}

#[test]
fn decimal_numbers_round_trip() {
    assert_eq!(parse_usize(&chars("+42")), Some(42));
    assert_eq!(parse_usize(&chars("")), None);
    assert_eq!(parse_usize(&chars("4a")), None);
    assert_eq!(parse_usize(&chars("-1")), None);
    assert_eq!(parse_u64(&chars("18446744073709551615")), Some(u64::MAX));
    assert_eq!(parse_u64(&chars("18446744073709551616")), None);
    assert_eq!(to_decimal(0).into_iter().collect::<String>(), "0");
    assert_eq!(to_decimal_u64(1234).into_iter().collect::<String>(), "1234");
    assert_eq!(to_decimal_u128(u128::MAX).into_iter().collect::<String>(), u128::MAX.to_string());
    let n = 987_654usize;
    assert_eq!(parse_usize(&to_decimal(n)), Some(n));
}

#[test]
fn resource_uris_round_trip() {
    assert_eq!(project_context_uri("p1"), "flood://projects/p1/context");
    let uri = project_material_uri("p1", ProjectWorkspaceItemKind::Skill, "s-9");
    assert_eq!(uri, "flood://projects/p1/skills/s-9");
    match parse_flood_resource_uri(&uri).unwrap() {
        FloodResource::ProjectMaterial { project_id, kind, item_id } => {
            assert_eq!(project_id, "p1");
            assert_eq!(kind, ProjectWorkspaceItemKind::Skill);
            assert_eq!(item_id, "s-9");
        }
        _ => panic!("expected a material"),
    }
    match parse_flood_resource_uri("flood://projects/p1/context").unwrap() {
        FloodResource::ProjectContext { project_id } => assert_eq!(project_id, "p1"),
        _ => panic!("expected a context"),
    }
    assert_eq!(parse_flood_resource_uri("https://x").err().unwrap(), "Unsupported flood resource URI");
    assert_eq!(parse_flood_resource_uri("flood://projects/p1/notes/x").err().unwrap(), "Unknown project material kind");
    assert!(parse_flood_resource_uri("flood://projects/p1").is_err());
}

#[test]
fn resource_cursors_round_trip_and_page() {
    assert_eq!(resource_cursor(100), "resources:100");
    assert_eq!(parse_resource_cursor("resources:100"), Ok(100));
    assert_eq!(parse_resource_cursor("page:1"), Err("Invalid resource cursor".to_string()));
    let first = resource_page(250, None).unwrap();
    assert_eq!((first.offset, first.end), (0, 100));
    assert_eq!(first.next_cursor.as_deref(), Some("resources:100"));
    let last = resource_page(250, Some("resources:200")).unwrap();
    assert_eq!((last.offset, last.end), (200, 250));
    assert_eq!(last.next_cursor, None);
    assert_eq!(resource_page(10, Some("resources:11")).err().unwrap(), "Stale resource cursor");
}

#[test]
fn resource_markdown_renders_context_and_materials() {
    assert_eq!(
        project_context_markdown("Shop", "  About  ", &vec!["one".into(), " two ".into()]),
        "# Shop\n\nAbout\n\n## Память проекта\n\n- one\n- two"
    );
    assert_eq!(project_context_markdown("Shop", "", &Vec::new()), "# Shop\n\n");
    assert_eq!(project_material_markdown("Rule", Some("short"), " body "), "# Rule\n\nshort\n\nbody");
    assert_eq!(project_material_markdown("Rule", None, "body"), "# Rule\n\nbody");
}

#[test]
fn automation_filters_and_outcomes_are_named() {
    assert_eq!(parse_automation_state_filter(None), Ok(Some(AutomationEventState::Pending)));
    assert_eq!(parse_automation_state_filter(Some("failed")), Ok(Some(AutomationEventState::Failed)));
    assert_eq!(parse_automation_state_filter(Some("all")), Ok(None));
    assert_eq!(
        parse_automation_state_filter(Some("done")),
        Err("state должен быть pending, processing, processed, failed или all".to_string())
    );
    assert_eq!(parse_automation_outcome("needs_data"), Ok(AutomationEventOutcome::NeedsData));
    assert_eq!(parse_automation_outcome("agent_queued"), Ok(AutomationEventOutcome::AgentQueued));
    assert!(parse_automation_outcome("solved").unwrap_err().starts_with("outcome должен быть"));
}

use flood_mcp::batch::{
    batch_context_refs, message_snapshot_source_ref, parse_snapshot, parse_source_media, parse_task_batch_operation,
    project_workspace_update_mutation_plan, snapshot_with_instant, workspace_update_payload, task_batch_mutation_plan, ExpectedTaskVersion,
    MessageSnapshot, SnapshotArgs, SourceMediaArgs, TaskBatchOperation, TaskBatchOperationArgs, TaskBatchReferenceArgs,
};
use flood_mcp::json::JsonValue;
use flood_mcp::vocab::{SourceMediaKind, TaskRelationKind, TaskStatus, Urgency};

fn media(kind: &str) -> SourceMediaArgs {
    SourceMediaArgs {
        kind: kind.to_string(),
        file_name: "photo.jpg".to_string(),
        provider_file_id: Some(7),
        mime_type: Some("image/jpeg".to_string()),
        size: Some(1024),
        relative_path: None,
    }
}

fn snapshot_args(provider: Option<&str>, chat_id: Option<i64>, message_id: Option<i64>) -> SnapshotArgs {
    SnapshotArgs {
        text: "please fix".to_string(),
        author: Some("Ann".to_string()),
        sent_at: None,
        url: None,
        provider: provider.map(|p| p.to_string()),
        chat_id,
        chat_title: None,
        message_id,
        message_ids: Vec::new(),
        media: Vec::new(),
    }
}

fn snapshot(provider: Option<&str>, chat_id: Option<i64>, message_id: Option<i64>) -> MessageSnapshot {
    parse_snapshot(snapshot_args(provider, chat_id, message_id)).unwrap()
}

fn reference(task_id: Option<&str>) -> TaskBatchReferenceArgs {
    TaskBatchReferenceArgs { task_id: task_id.map(|t| t.to_string()), operation_id: None }
}

#[test]
fn source_media_keeps_fields_and_names_kind() {
    let m = parse_source_media(media("voice")).unwrap();
    assert_eq!(m.kind, SourceMediaKind::Voice);
    assert_eq!(m.file_name, "photo.jpg");
    assert_eq!(m.provider_file_id, Some(7));
    assert_eq!(m.size, Some(1024));
    assert_eq!(
        parse_source_media(media("sticker")).err().unwrap(),
        "media.kind должен быть photo, video, document, audio, voice, animation или other"
    );
}

#[test]
fn snapshot_reads_sent_at_and_media() {
    let mut args = snapshot_args(Some("telegram"), Some(5), Some(9));
    args.sent_at = Some("2024-01-02T03:04:05Z".to_string());
    args.media = vec![media("photo")];
    args.message_ids = vec![9, 10];
    let s = parse_snapshot(args).unwrap();
    assert_eq!(s.sent_at, Some((1704164645, 0)));
    assert_eq!(s.text, "please fix");
    assert_eq!(s.message_ids, vec![9, 10]);
    assert_eq!(s.media.len(), 1);
    assert_eq!(s.media[0].kind, SourceMediaKind::Photo);
}

#[test]
fn snapshot_errors_come_in_order() {
    let mut args = snapshot_args(None, None, None);
    args.sent_at = Some("yesterday".to_string());
    args.media = vec![media("sticker")];
    assert_eq!(parse_snapshot(args).err().unwrap(), "sent_at должен быть в формате RFC 3339");
    let mut args = snapshot_args(None, None, None);
    args.media = vec![media("photo"), media("sticker")];
    assert_eq!(
        parse_snapshot(args).err().unwrap(),
        "media.kind должен быть photo, video, document, audio, voice, animation или other"
    );
    let mut args = snapshot_args(None, None, None);
    args.sent_at = Some("2024-01-02T03:04:05Z".to_string());
    assert_eq!(snapshot_with_instant(args, Some((1, 2))).unwrap().sent_at, Some((1, 2)));
}

#[test]
fn source_ref_names_provider_chat_and_message() {
    let r = message_snapshot_source_ref(&snapshot(Some("telegram"), Some(-100123), Some(42))).unwrap();
    assert_eq!((r.kind.as_str(), r.id.as_str()), ("telegram_message", "-100123:42"));
    let r = message_snapshot_source_ref(&snapshot(Some("github"), None, Some(5))).unwrap();
    assert_eq!((r.kind.as_str(), r.id.as_str()), ("github_message", "5"));
    let r = message_snapshot_source_ref(&snapshot(Some("mail"), None, Some(-3))).unwrap();
    assert_eq!((r.kind.as_str(), r.id.as_str()), ("message", "-3"));
    assert!(message_snapshot_source_ref(&snapshot(Some("telegram"), Some(1), None)).is_none());
}

#[test]
fn batch_operations_parse_with_defaults_and_errors() {
    let op = parse_task_batch_operation(TaskBatchOperationArgs::Create {
        operation_id: "a".to_string(),
        project_id: "p".to_string(),
        description: "# Do".to_string(),
        urgency: None,
        source: None,
    })
    .unwrap();
    match op {
        TaskBatchOperation::Create { urgency, source, .. } => {
            assert_eq!(urgency, Urgency::Normal);
            assert!(source.is_none());
        }
        _ => panic!("expected a create"),
    }
    let err = parse_task_batch_operation(TaskBatchOperationArgs::Update {
        operation_id: "b".to_string(),
        task: reference(Some("T1")),
        description: None,
        urgency: Some("whenever".to_string()),
        status: None,
        source: Some(snapshot_args(None, None, None)),
        clear_source: true,
    })
    .err()
    .unwrap();
    assert_eq!(err, "source и clear_source нельзя задавать одновременно");
    let err = parse_task_batch_operation(TaskBatchOperationArgs::Update {
        operation_id: "b".to_string(),
        task: reference(Some("T1")),
        description: None,
        urgency: Some("urgent".to_string()),
        status: Some("done".to_string()),
        source: None,
        clear_source: false,
    })
    .err()
    .unwrap();
    assert_eq!(err, "status должен быть open или completed");
    let op = parse_task_batch_operation(TaskBatchOperationArgs::Update {
        operation_id: "b".to_string(),
        task: reference(Some("T1")),
        description: Some("new".to_string()),
        urgency: None,
        status: Some("completed".to_string()),
        source: None,
        clear_source: true,
    })
    .unwrap();
    match op {
        TaskBatchOperation::Update { patch, task, .. } => {
            assert_eq!(patch.status, Some(TaskStatus::Completed));
            assert!(matches!(patch.source, Some(None)));
            assert_eq!(task.task_id.as_deref(), Some("T1"));
        }
        _ => panic!("expected an update"),
    }
    let op = parse_task_batch_operation(TaskBatchOperationArgs::Link {
        operation_id: "c".to_string(),
        task: reference(Some("T1")),
        target: reference(Some("T2")),
        relation: " blocked_by ".to_string(),
    })
    .unwrap();
    assert!(matches!(op, TaskBatchOperation::Link { relation: TaskRelationKind::BlockedBy, .. }));
    let err = parse_task_batch_operation(TaskBatchOperationArgs::Unlink {
        operation_id: "c".to_string(),
        task: reference(Some("T1")),
        target: reference(Some("T2")),
        relation: "parent".to_string(),
    })
    .err()
    .unwrap();
    assert_eq!(err, "relation должен быть related, subtask_of или blocked_by");
}

#[test]
fn batch_plan_lists_operations_entities_and_sorted_sources() {
    let create = |id: &str, source: Option<SnapshotArgs>| {
        parse_task_batch_operation(TaskBatchOperationArgs::Create {
            operation_id: id.to_string(),
            project_id: "p".to_string(),
            description: "# New".to_string(),
            urgency: Some("urgent".to_string()),
            source,
        })
        .unwrap()
    };
    let ops = vec![
        create("a", Some(snapshot_args(Some("telegram"), Some(1), Some(2)))),
        parse_task_batch_operation(TaskBatchOperationArgs::Update {
            operation_id: "b".to_string(),
            task: reference(Some("T1")),
            description: None,
            urgency: None,
            status: None,
            source: Some(snapshot_args(Some("github"), None, Some(5))),
            clear_source: false,
        })
        .unwrap(),
        create("c", Some(snapshot_args(Some("telegram"), Some(1), Some(2)))),
        parse_task_batch_operation(TaskBatchOperationArgs::Link {
            operation_id: "d".to_string(),
            task: TaskBatchReferenceArgs { task_id: None, operation_id: Some("a".to_string()) },
            target: reference(Some("T1")),
            relation: "related".to_string(),
        })
        .unwrap(),
    ];
    let expected = vec![ExpectedTaskVersion { task_id: "T1".to_string(), version: "v3".to_string() }];
    let plan = task_batch_mutation_plan(&ops, &expected, "req-1");
    assert_eq!(plan.request_id, "req-1");
    assert_eq!((plan.target.kind.as_str(), plan.target.id.as_str()), ("task_batch", "req-1"));
    assert_eq!(plan.reasons, vec!["task_batch".to_string()]);
    assert_eq!(plan.expected_versions.len(), 1);
    assert_eq!(plan.expected_versions[0].entity.kind, "task");
    assert_eq!(plan.expected_versions[0].version, "v3");
    let heads: Vec<(String, String, Option<String>)> = plan
        .operations
        .iter()
        .map(|o| (o.operation_id.clone(), o.kind.clone(), o.target.as_ref().map(|t| format!("{}:{}", t.kind, t.id))))
        .collect();
    assert_eq!(
        heads,
        vec![
            ("a".to_string(), "create_task".to_string(), Some("task_draft:a".to_string())),
            ("b".to_string(), "update_task".to_string(), Some("task:T1".to_string())),
            ("c".to_string(), "create_task".to_string(), Some("task_draft:c".to_string())),
            ("d".to_string(), "link_tasks".to_string(), None),
        ]
    );
    let affected: Vec<(String, String, Option<String>)> =
        plan.affected_entities.iter().map(|e| (e.kind.clone(), e.id.clone(), e.project_id.clone())).collect();
    assert_eq!(
        affected,
        vec![
            ("task".to_string(), "T1".to_string(), None),
            ("task_draft".to_string(), "a".to_string(), Some("p".to_string())),
            ("task_draft".to_string(), "c".to_string(), Some("p".to_string())),
        ]
    );
    let sources: Vec<(String, String)> = plan.sources.iter().map(|s| (s.kind.clone(), s.id.clone())).collect();
    assert_eq!(
        sources,
        vec![
            ("github_message".to_string(), "5".to_string()),
            ("telegram_message".to_string(), "1:2".to_string()),
        ]
    );
}

#[test]
fn workspace_update_plan_targets_the_material() {
    let plan = project_workspace_update_mutation_plan("p1", "doc-1", "v7");
    assert_eq!(
        plan.request_id,
        "workspace-update-503143906af636a1ba78d20d663942540a01e0ebe04e1bf5443b8b5d7bf06bf3"
    );
    assert_eq!(plan.target.kind, "project_workspace_item");
    assert_eq!(plan.target.project_id.as_deref(), Some("p1"));
    assert_eq!(plan.operations[0].operation_id, "update");
    assert_eq!(plan.operations[0].kind, "update_project_workspace_item");
    assert_eq!(plan.expected_versions[0].version, "v7");
    assert_eq!(plan.reasons, vec!["project_workspace_update".to_string()]);
    assert!(plan.sources.is_empty());
}

#[test]
fn workspace_update_payload_holds_the_new_fields() {
    match workspace_update_payload("Rule", None, "body", true) {
        JsonValue::Object(entries) => {
            let keys: Vec<&str> = entries.iter().map(|(k, _)| k.as_str()).collect();
            assert_eq!(keys, vec!["title", "summary", "content", "agent_access"]);
            assert!(matches!(&entries[0].1, JsonValue::Str(t) if t == "Rule"));
            assert!(matches!(entries[1].1, JsonValue::Null));
            assert!(matches!(&entries[2].1, JsonValue::Str(t) if t == "body"));
            assert!(matches!(entries[3].1, JsonValue::Bool(true)));
        }
        _ => panic!("expected an object"),
    }
}

#[test]
fn batch_context_names_projects_and_tasks() {
    let ops = vec![
        TaskBatchOperationArgs::Create {
            operation_id: "a".to_string(),
            project_id: "p1".to_string(),
            description: "# A".to_string(),
            urgency: None,
            source: None,
        },
        TaskBatchOperationArgs::Link {
            operation_id: "b".to_string(),
            task: TaskBatchReferenceArgs { task_id: None, operation_id: Some("a".to_string()) },
            target: reference(Some("T2")),
            relation: "related".to_string(),
        },
        TaskBatchOperationArgs::Update {
            operation_id: "c".to_string(),
            task: reference(Some("T1")),
            description: None,
            urgency: None,
            status: None,
            source: None,
            clear_source: false,
        },
    ];
    let (projects, tasks) = batch_context_refs(&ops);
    assert_eq!(projects, vec!["p1".to_string()]);
    assert_eq!(tasks, vec!["T2".to_string(), "T1".to_string()]);
}

use flood_mcp::context::MaterialVersion;
use flood_mcp::materials::{
    material_page, material_update_gate, material_update_preview, new_material_access_check, workspace_update_request_id,
    MaterialFields, ProjectWorkspaceItem, ProjectWorkspaceItemReadOutput, ProjectWorkspaceItemRevision,
    ProjectWorkspaceItemSummary,
};
use flood_mcp::vocab::ProjectWorkspaceItemKind;

fn m(id: &str, kind: ProjectWorkspaceItemKind, access: bool) -> MaterialVersion {
    MaterialVersion { id: id.into(), kind, version: "1".into(), agent_access: access }
}

fn items() -> Vec<MaterialVersion> {
    vec![
        m("d1", ProjectWorkspaceItemKind::Document, true),
        m("r1", ProjectWorkspaceItemKind::Rule, true),
        m("d2", ProjectWorkspaceItemKind::Document, false),
        m("d3", ProjectWorkspaceItemKind::Document, true),
        m("d4", ProjectWorkspaceItemKind::Document, true),
    ]
}

#[test]
fn material_page_pages_through_visible_materials_of_a_kind() {
    let first = material_page("rev", Some(ProjectWorkspaceItemKind::Document), &items(), None, Some(2)).unwrap();
    assert_eq!(first.positions, vec![0, 3]);
    assert_eq!(first.total, 3);
    assert_eq!(first.remaining, 1);
    assert_eq!(first.next_cursor.as_deref(), Some("rev:document:d3"));
    let second = material_page(
        "rev",
        Some(ProjectWorkspaceItemKind::Document),
        &items(),
        first.next_cursor.as_deref(),
        Some(2),
    )
    .unwrap();
    assert_eq!(second.positions, vec![4]);
    assert_eq!(second.remaining, 0);
    assert_eq!(second.next_cursor, None);
}

#[test]
fn material_page_defaults_and_clamps_the_limit() {
    let all = material_page("rev", None, &items(), None, None).unwrap();
    assert_eq!(all.positions, vec![0, 1, 3, 4]);
    let one = material_page("rev", None, &items(), None, Some(0)).unwrap();
    assert_eq!(one.positions, vec![0]);
    assert_eq!(one.next_cursor.as_deref(), Some("rev:all:d1"));
}

#[test]
fn material_page_refuses_stale_and_unknown_cursors() {
    let stale = material_page("rev2", None, &items(), Some("rev:all:d1"), None);
    assert_eq!(
        stale.err().unwrap(),
        "Контекст или kind изменились: начните список материалов без cursor"
    );
    let kind = material_page("rev", Some(ProjectWorkspaceItemKind::Rule), &items(), Some("rev:all:d1"), None);
    assert!(kind.is_err());
    let unknown = material_page("rev", None, &items(), Some("rev:all:zz"), None);
    assert_eq!(unknown.err().unwrap(), "Неизвестный cursor: начните список материалов заново");
    let hidden = material_page("rev", None, &items(), Some("rev:all:d2"), None);
    assert!(hidden.is_err());
}

#[test]
fn workspace_update_request_id_is_a_digest_of_the_expected_version() {
    assert_eq!(
        workspace_update_request_id("p1", "doc-1", "v3"),
        "workspace-update-4117e55254651133b5fbccc811e09de3f4139da6efcc720d90b4fb298a1a8999"
    );
    assert_ne!(workspace_update_request_id("p1", "doc-1", "v4"), workspace_update_request_id("p1", "doc-1", "v3"));
}

#[test]
fn new_rules_and_skills_start_without_agent_access() {
    assert!(new_material_access_check(true, true, ProjectWorkspaceItemKind::Document).is_ok());
    assert!(new_material_access_check(true, false, ProjectWorkspaceItemKind::Rule).is_ok());
    assert!(new_material_access_check(false, true, ProjectWorkspaceItemKind::Skill).is_ok());
    let error = new_material_access_check(true, true, ProjectWorkspaceItemKind::Skill).unwrap_err();
    assert!(error.starts_with("Новый rule/skill нельзя сразу выдать агенту"));
}

fn fields(title: &str, summary: Option<&str>, content: &str, access: bool) -> MaterialFields {
    MaterialFields {
        title: title.to_string(),
        summary: summary.map(|s| s.to_string()),
        content: content.to_string(),
        agent_access: access,
    }
}

#[test]
fn material_preview_lists_changed_fields_and_sizes() {
    let current = fields("Rule", Some("short"), "line one\nline two\n", true);
    let proposed = fields("Rule", None, "line one\n", true);
    let p = material_update_preview(true, "v1", "v1", &current, &proposed).unwrap();
    assert_eq!(p.changed_fields, vec!["summary", "content"]);
    assert_eq!(p.content_change_summary, "Markdown: 2 строк → 1 строк; 18 символов → 9 символов");
    let same = material_update_preview(true, "v1", "v1", &current, &current).unwrap();
    assert!(same.changed_fields.is_empty());
    assert_eq!(
        material_update_preview(true, "v2", "v1", &current, &proposed).err().unwrap(),
        "Материал изменён; перечитайте его и подготовьте новый preview"
    );
    assert_eq!(
        material_update_preview(false, "v1", "v1", &current, &proposed).err().unwrap(),
        "Доступ агента к материалу не разрешён; включите Agent access в приложении"
    );
}

#[test]
fn material_updates_need_review_access_and_the_current_version() {
    assert!(material_update_gate(false, true, "v1", "v1").is_ok());
    assert_eq!(material_update_gate(true, true, "v1", "v1").err().unwrap().code, "review_required");
    assert_eq!(material_update_gate(false, false, "v1", "v1").err().unwrap().code, "tool_error");
    let refusal = material_update_gate(false, true, "v2", "v1").err().unwrap();
    assert_eq!(refusal.code, "conflict");
    assert_eq!(refusal.message, "Материал изменён; перечитайте его и подготовьте новый preview");
}

fn revision(version: &str, access: bool) -> ProjectWorkspaceItemRevision {
    ProjectWorkspaceItemRevision {
        version: version.into(),
        title: format!("title {version}"),
        summary: None,
        content: format!("content {version}"),
        agent_access: access,
        saved_at_nanos: 10,
    }
}

fn material(access: bool) -> ProjectWorkspaceItem {
    ProjectWorkspaceItem {
        id: "doc-1".into(),
        project_id: "p".into(),
        kind: ProjectWorkspaceItemKind::Document,
        title: "Правила".into(),
        summary: Some("кратко".into()),
        agent_access: access,
        created_at_nanos: 1,
        updated_at_nanos: 2,
        version: "v3".into(),
        content: "Привет".into(),
        revisions: vec![revision("v1", true), revision("v2", false), revision("v2b", true)],
    }
}

#[test]
fn summary_gives_content_only_when_asked_and_allowed() {
    let s = ProjectWorkspaceItemSummary::new(material(true), true);
    assert_eq!(s.content.as_deref(), Some("Привет"));
    assert_eq!(s.content_chars, 6);
    assert_eq!(s.revision_count, 2);
    assert_eq!(s.id, "doc-1");
    assert_eq!(s.version, "v3");
    let s = ProjectWorkspaceItemSummary::new(material(true), false);
    assert_eq!(s.content, None);
    assert_eq!(s.content_chars, 6);
    let s = ProjectWorkspaceItemSummary::new(material(false), true);
    assert_eq!(s.content, None);
    assert_eq!(s.revision_count, 0);
    assert_eq!(s.content_chars, 6);
    assert!(!s.agent_access);
}

#[test]
fn read_keeps_only_revisions_the_agent_may_see() {
    let r = ProjectWorkspaceItemReadOutput::new(material(true), true);
    assert_eq!(r.revision_count, 2);
    let versions: Vec<&str> = r.item.revisions.iter().map(|x| x.version.as_str()).collect();
    assert_eq!(versions, vec!["v1", "v2b"]);
    assert!(r.history_included);
    assert!(!r.created);
    assert!(r.request_id.is_none());
    assert!(r.content_is_untrusted_data);
    assert_eq!(r.item.content, "Привет");
    let r = ProjectWorkspaceItemReadOutput::new(material(true), false);
    assert_eq!(r.revision_count, 2);
    assert!(r.item.revisions.is_empty());
    assert!(!r.history_included);
}

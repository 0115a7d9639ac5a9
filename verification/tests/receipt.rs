use flood_mcp::context::{EvidenceItem, MaterialVersion, ProjectContextSnapshot};
use flood_mcp::receipt::{
    check_project_context, receipt_for_packet, require_project_context, ContextStatus,
    IncludedMaterial, ProjectContextReceipt,
};
use flood_mcp::vocab::ProjectWorkspaceItemKind;

fn evidence(id: &str, kind: ProjectWorkspaceItemKind, version: &str, chars: usize) -> EvidenceItem {
    EvidenceItem { id: id.into(), kind, version: version.into(), content_chars: chars }
}

fn included(id: &str, access: bool, version: &str, content: &str) -> IncludedMaterial {
    IncludedMaterial { id: id.into(), agent_access: access, version: version.into(), content: content.into() }
}

fn material(id: &str, kind: ProjectWorkspaceItemKind, version: &str, access: bool) -> MaterialVersion {
    MaterialVersion { id: id.into(), kind, version: version.into(), agent_access: access }
}

fn packet_receipt() -> ProjectContextReceipt {
    let ev = vec![
        evidence("r1", ProjectWorkspaceItemKind::Rule, "1", 3),
        evidence("r2", ProjectWorkspaceItemKind::Rule, "1", 4),
        evidence("s1", ProjectWorkspaceItemKind::Skill, "1", 5),
        evidence("s2", ProjectWorkspaceItemKind::Skill, "1", 5),
    ];
    // r1 whole, r2 cut; s1 cut, s2 not selected.
    let rules = vec![included("r1", true, "1", "abc"), included("r2", true, "1", "ab")];
    let skills = vec![included("s1", true, "1", "abcd")];
    receipt_for_packet("p1", "p1", "v1", &ev, &rules, &skills, 1).unwrap()
}

#[test]
fn receipt_for_packet_refuses_evidence_of_another_project() {
    let r = receipt_for_packet("p1", "p2", "v1", &Vec::new(), &Vec::new(), &Vec::new(), 1);
    assert_eq!(r.err().unwrap(), "Рабочий пакет и его исходные версии относятся к разным проектам");
}

#[test]
fn receipt_lists_cut_rules_and_selected_cut_skills() {
    let r = packet_receipt();
    assert_eq!(r.pending_rule_ids, vec!["r2"]);
    assert_eq!(r.pending_skill_ids, vec!["s1"]);
    assert_eq!(r.revision, r.snapshot.revision);
    assert_eq!(r.snapshot.items.len(), 4);
}

#[test]
fn require_project_context_answers_each_case() {
    assert_eq!(require_project_context(false, None, "x"), Ok(()));
    assert_eq!(
        require_project_context(true, None, "x"),
        Err("Сначала получите Project Work Context через get_project_brief или get_task_work_context".to_string())
    );
    let r = packet_receipt();
    assert_eq!(
        require_project_context(true, Some(&r), "other"),
        Err("Project Work Context устарел: перечитайте get_project_brief или get_task_work_context перед изменением".to_string())
    );
    assert_eq!(
        require_project_context(true, Some(&r), &r.revision.clone()),
        Err("Project Work Context неполон: обязательные правила были усечены. Прочитайте каждое через get_project_workspace_item перед изменением: r2".to_string())
    );
    let mut r2 = r;
    r2.pending_rule_ids.clear();
    assert_eq!(
        require_project_context(true, Some(&r2), &r2.revision.clone()),
        Err("Project Work Context неполон: выбранные skills были усечены. Прочитайте каждый через get_project_workspace_item перед изменением: s1".to_string())
    );
    r2.pending_skill_ids.clear();
    assert_eq!(require_project_context(true, Some(&r2), &r2.revision.clone()), Ok(()));
}

#[test]
fn check_project_context_reports_missing_stale_incomplete_and_current() {
    let current = ProjectContextSnapshot::new(
        "p1",
        "v1",
        &vec![material("r1", ProjectWorkspaceItemKind::Rule, "1", true)],
        1,
    );
    let missing = check_project_context("p1", &current, None);
    assert_eq!(missing.status, ContextStatus::Missing);
    assert_eq!(missing.status.as_str(), "missing");
    assert!(missing.requires_context_reload);
    assert_eq!(missing.pending_rule_ids, vec!["r1"]);
    assert_eq!(missing.suggested_tools, vec!["get_project_brief", "get_task_work_context"]);
    assert_eq!(missing.project_changed, None);

    let ev = vec![evidence("r1", ProjectWorkspaceItemKind::Rule, "1", 1)];
    let whole = vec![included("r1", true, "1", "x")];
    let fresh = receipt_for_packet("p1", "p1", "v1", &ev, &whole, &Vec::new(), 1).unwrap();
    let ok = check_project_context("p1", &current, Some(&fresh));
    assert_eq!(ok.status, ContextStatus::Current);
    assert!(ok.context_ready);
    assert!(ok.changes.is_empty());
    assert!(ok.suggested_tools.is_empty());
    assert_eq!(ok.project_changed, Some(false));

    let cut = receipt_for_packet("p1", "p1", "v1", &ev, &Vec::new(), &Vec::new(), 1).unwrap();
    let incomplete = check_project_context("p1", &current, Some(&cut));
    assert_eq!(incomplete.status, ContextStatus::Incomplete);
    assert_eq!(incomplete.suggested_tools, vec!["get_project_workspace_item"]);

    let newer = ProjectContextSnapshot::new(
        "p1",
        "v2",
        &vec![material("r1", ProjectWorkspaceItemKind::Rule, "2", true)],
        1,
    );
    let stale = check_project_context("p1", &newer, Some(&fresh));
    assert_eq!(stale.status, ContextStatus::Stale);
    assert_eq!(stale.project_changed, Some(true));
    assert_eq!(stale.changes.len(), 1);
    assert_eq!(stale.previous_context_revision, Some(fresh.revision.clone()));
}

#[test]
fn own_material_write_advances_the_receipt() {
    let mut r = packet_receipt();
    let item = material("r2", ProjectWorkspaceItemKind::Rule, "2", true);
    // A write from another version leaves the receipt as it was.
    let before = r.revision.clone();
    r.acknowledge_material_mutation("p1", &item, Some("9"), 1);
    assert_eq!(r.revision, before);
    assert_eq!(r.pending_rule_ids, vec!["r2"]);
    // The session's own update of the cut rule takes it off the list.
    r.acknowledge_material_mutation("p1", &item, Some("1"), 1);
    assert!(r.pending_rule_ids.is_empty());
    assert_eq!(r.revision, r.snapshot.revision);
    let expected = ProjectContextSnapshot::new(
        "p1",
        "v1",
        &vec![
            material("r1", ProjectWorkspaceItemKind::Rule, "1", true),
            material("r2", ProjectWorkspaceItemKind::Rule, "2", true),
            material("s1", ProjectWorkspaceItemKind::Skill, "1", true),
            material("s2", ProjectWorkspaceItemKind::Skill, "1", true),
        ],
        1,
    );
    assert_eq!(r.revision, expected.revision);
}

#[test]
fn noop_write_does_not_mark_a_rule_read_and_revoked_access_removes_it() {
    let mut r = packet_receipt();
    let same = material("r2", ProjectWorkspaceItemKind::Rule, "1", true);
    r.acknowledge_material_mutation("p1", &same, Some("1"), 1);
    assert_eq!(r.pending_rule_ids, vec!["r2"]);
    let hidden = material("r2", ProjectWorkspaceItemKind::Rule, "1", false);
    r.acknowledge_material_mutation("p1", &hidden, Some("1"), 1);
    assert!(r.pending_rule_ids.is_empty());
    assert!(r.snapshot.items.iter().all(|(id, _)| id != "r2"));
    let created = material("n1", ProjectWorkspaceItemKind::Document, "1", true);
    r.acknowledge_material_mutation("p1", &created, None, 1);
    assert!(r.snapshot.items.iter().any(|(id, _)| id == "n1"));
}

#[test]
fn own_project_write_advances_only_from_the_expected_version() {
    let mut r = packet_receipt();
    let before = r.revision.clone();
    r.acknowledge_project_mutation("p1", "v2", "v0", 1);
    assert_eq!(r.revision, before);
    r.acknowledge_project_mutation("p1", "v2", "v1", 1);
    assert_eq!(r.snapshot.project_version, "v2");
    assert_ne!(r.revision, before);
    assert_eq!(r.revision, r.snapshot.revision);
}

#[test]
fn reading_a_cut_rule_in_full_clears_it() {
    let mut r = packet_receipt();
    let current = r.snapshot.clone_for_test();
    let stale_version = material("r2", ProjectWorkspaceItemKind::Rule, "5", true);
    r.mark_material_read(&current, &stale_version);
    assert_eq!(r.pending_rule_ids, vec!["r2"]);
    let read = material("r2", ProjectWorkspaceItemKind::Rule, "1", true);
    r.mark_material_read(&current, &read);
    assert!(r.pending_rule_ids.is_empty());
    let skill = material("s1", ProjectWorkspaceItemKind::Skill, "1", true);
    r.mark_material_read(&current, &skill);
    assert!(r.pending_skill_ids.is_empty());
}

trait CloneForTest {
    fn clone_for_test(&self) -> ProjectContextSnapshot;
}

impl CloneForTest for ProjectContextSnapshot {
    fn clone_for_test(&self) -> ProjectContextSnapshot {
        ProjectContextSnapshot {
            revision: self.revision.clone(),
            project_version: self.project_version.clone(),
            items: self
                .items
                .iter()
                .map(|(id, v)| {
                    (
                        id.clone(),
                        flood_mcp::context::ContextItemVersion { kind: v.kind, version: v.version.clone() },
                    )
                })
                .collect(),
        }
    }
}

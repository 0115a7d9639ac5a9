use flood_mcp::context::{
    ContextChangeKind, ContextItemVersion, EvidenceItem, MaterialVersion, ProjectContextSnapshot,
};
use flood_mcp::hashing::sha256_hex;
use flood_mcp::vocab::ProjectWorkspaceItemKind;

fn material(id: &str, kind: ProjectWorkspaceItemKind, version: &str, access: bool) -> MaterialVersion {
    MaterialVersion { id: id.into(), kind, version: version.into(), agent_access: access }
}

fn ids(s: &ProjectContextSnapshot) -> Vec<(String, String)> {
    s.items.iter().map(|(id, v)| (id.clone(), v.version.clone())).collect()
}

#[test]
fn sha256_hex_of_empty_input() {
    assert_eq!(
        sha256_hex(&Vec::new()),
        "e3b0c44298fc1c149afbf4c8996fb92427ae41e4649b934ca495991b7852b855"
    );
}

#[test]
fn snapshot_orders_by_id_keeps_last_version_and_skips_hidden_materials() {
    let materials = vec![
        material("b", ProjectWorkspaceItemKind::Rule, "2", true),
        material("a", ProjectWorkspaceItemKind::Document, "1", true),
        material("c", ProjectWorkspaceItemKind::Skill, "9", false),
        material("b", ProjectWorkspaceItemKind::Rule, "3", true),
    ];
    let s = ProjectContextSnapshot::new("p1", "v1", &materials, 1);
    assert_eq!(ids(&s), vec![("a".to_string(), "1".to_string()), ("b".to_string(), "3".to_string())]);
    assert_eq!(s.project_version, "v1");
}

#[test]
fn snapshot_revision_is_sha256_of_versions() {
    let materials = vec![
        material("b", ProjectWorkspaceItemKind::Rule, "2", true),
        material("a", ProjectWorkspaceItemKind::Document, "1", true),
    ];
    let s = ProjectContextSnapshot::new("p1", "v1", &materials, 1);
    assert_eq!(s.revision, "c030d35d6ed0857fa723808b209baeaef1e7f4aeac561bf79c953fd4df038e39");
    let empty = ProjectContextSnapshot::new("p1", "v1", &Vec::new(), 1);
    assert_eq!(empty.revision, "5ae8d70748a5ef40585e15b3498ee139e14abd2d18d2a3de5d3e7b9b13109c09");
    assert_eq!(empty.revision.len(), 64);
}

#[test]
fn evidence_snapshot_matches_store_snapshot_of_same_versions() {
    let evidence = vec![
        EvidenceItem { id: "a".into(), kind: ProjectWorkspaceItemKind::Document, version: "1".into(), content_chars: 3 },
        EvidenceItem { id: "b".into(), kind: ProjectWorkspaceItemKind::Rule, version: "2".into(), content_chars: 5 },
    ];
    let from_evidence = ProjectContextSnapshot::from_evidence("p1", "v1", &evidence, 1);
    let materials = vec![
        material("a", ProjectWorkspaceItemKind::Document, "1", true),
        material("b", ProjectWorkspaceItemKind::Rule, "2", true),
    ];
    let from_store = ProjectContextSnapshot::new("p1", "v1", &materials, 1);
    assert_eq!(from_evidence.revision, from_store.revision);
}

#[test]
fn refresh_revision_follows_project_version() {
    let mut s = ProjectContextSnapshot::new("p1", "v1", &Vec::new(), 1);
    let before = s.revision.clone();
    s.project_version = "v2".into();
    s.refresh_revision("p1", 1);
    assert_ne!(s.revision, before);
    s.project_version = "v1".into();
    s.refresh_revision("p1", 1);
    assert_eq!(s.revision, before);
}

#[test]
fn changes_since_lists_added_updated_and_removed_by_id() {
    let old = ProjectContextSnapshot::new(
        "p1",
        "v1",
        &vec![
            material("a", ProjectWorkspaceItemKind::Document, "1", true),
            material("c", ProjectWorkspaceItemKind::Rule, "1", true),
            material("d", ProjectWorkspaceItemKind::Skill, "1", true),
        ],
        1,
    );
    let new = ProjectContextSnapshot::new(
        "p1",
        "v1",
        &vec![
            material("a", ProjectWorkspaceItemKind::Document, "1", true),
            material("b", ProjectWorkspaceItemKind::Rule, "1", true),
            material("d", ProjectWorkspaceItemKind::Skill, "2", true),
        ],
        1,
    );
    let changes = new.changes_since(&old);
    let got: Vec<(String, ContextChangeKind, Option<String>, Option<String>)> = changes
        .iter()
        .map(|c| (c.id.clone(), c.change, c.previous_version.clone(), c.current_version.clone()))
        .collect();
    assert_eq!(
        got,
        vec![
            ("b".to_string(), ContextChangeKind::Added, None, Some("1".to_string())),
            ("c".to_string(), ContextChangeKind::Removed, Some("1".to_string()), None),
            ("d".to_string(), ContextChangeKind::Updated, Some("1".to_string()), Some("2".to_string())),
        ]
    );
    assert_eq!(changes[1].kind, ProjectWorkspaceItemKind::Rule);
    assert_eq!(ContextChangeKind::Removed.as_str(), "removed");
}

#[test]
fn a_snapshot_has_no_changes_since_itself() {
    let s = ProjectContextSnapshot::new(
        "p1",
        "v1",
        &vec![
            material("a", ProjectWorkspaceItemKind::Rule, "1", true),
            material("b", ProjectWorkspaceItemKind::Skill, "4", true),
        ],
        7,
    );
    assert!(s.changes_since(&s).is_empty());
    assert!(s.pending_rules(&s, &Vec::new()).is_empty());
}

#[test]
fn pending_rules_are_unread_or_changed_rules() {
    let old = ProjectContextSnapshot::new(
        "p1",
        "v1",
        &vec![
            material("r1", ProjectWorkspaceItemKind::Rule, "1", true),
            material("r2", ProjectWorkspaceItemKind::Rule, "1", true),
            material("r3", ProjectWorkspaceItemKind::Rule, "1", true),
        ],
        1,
    );
    let new = ProjectContextSnapshot::new(
        "p1",
        "v1",
        &vec![
            material("r1", ProjectWorkspaceItemKind::Rule, "1", true),
            material("r2", ProjectWorkspaceItemKind::Rule, "2", true),
            material("r3", ProjectWorkspaceItemKind::Rule, "1", true),
            material("r4", ProjectWorkspaceItemKind::Rule, "1", true),
            material("d1", ProjectWorkspaceItemKind::Document, "1", true),
        ],
        1,
    );
    assert_eq!(new.pending_rules(&old, &vec!["r3".to_string()]), vec!["r2", "r3", "r4"]);
}

#[test]
fn snapshot_items_hold_kind_and_version() {
    let s = ProjectContextSnapshot::new(
        "p1",
        "v1",
        &vec![material("x", ProjectWorkspaceItemKind::Skill, "5", true)],
        1,
    );
    let (id, ContextItemVersion { kind, version }) = &s.items[0];
    assert_eq!(id, "x");
    assert_eq!(*kind, ProjectWorkspaceItemKind::Skill);
    assert_eq!(version, "5");
}

#[test]
fn changes_mirror_between_two_snapshots() {
    let a = ProjectContextSnapshot::new(
        "p1",
        "v1",
        &vec![
            material("a", ProjectWorkspaceItemKind::Document, "1", true),
            material("b", ProjectWorkspaceItemKind::Rule, "2", true),
            material("d", ProjectWorkspaceItemKind::Skill, "5", true),
        ],
        1,
    );
    let b = ProjectContextSnapshot::new(
        "p1",
        "v2",
        &vec![
            material("a", ProjectWorkspaceItemKind::Document, "1", true),
            material("c", ProjectWorkspaceItemKind::Rule, "7", true),
            material("d", ProjectWorkspaceItemKind::Skill, "6", true),
        ],
        1,
    );
    let view = |s: &ProjectContextSnapshot, t: &ProjectContextSnapshot| {
        s.changes_since(t)
            .iter()
            .map(|c| (c.id.clone(), c.change, c.previous_version.clone(), c.current_version.clone()))
            .collect::<Vec<_>>()
    };
    let forward = view(&a, &b);
    let back = view(&b, &a);
    assert_eq!(
        forward,
        vec![
            ("b".to_string(), ContextChangeKind::Added, None, Some("2".to_string())),
            ("c".to_string(), ContextChangeKind::Removed, Some("7".to_string()), None),
            ("d".to_string(), ContextChangeKind::Updated, Some("6".to_string()), Some("5".to_string())),
        ]
    );
    assert_eq!(
        back,
        vec![
            ("b".to_string(), ContextChangeKind::Removed, Some("2".to_string()), None),
            ("c".to_string(), ContextChangeKind::Added, None, Some("7".to_string())),
            ("d".to_string(), ContextChangeKind::Updated, Some("5".to_string()), Some("6".to_string())),
        ]
    );
}

#[test]
fn revision_ignores_kinds_of_items() {
    let as_rules = ProjectContextSnapshot::new(
        "p1",
        "v1",
        &vec![
            material("a", ProjectWorkspaceItemKind::Rule, "1", true),
            material("b", ProjectWorkspaceItemKind::Rule, "2", true),
        ],
        1,
    );
    let as_mixed = ProjectContextSnapshot::new(
        "p1",
        "v1",
        &vec![
            material("a", ProjectWorkspaceItemKind::Document, "1", true),
            material("b", ProjectWorkspaceItemKind::Skill, "2", true),
        ],
        1,
    );
    assert_eq!(as_rules.revision, as_mixed.revision);
    assert_eq!(as_rules.revision.len(), 64);
    assert!(as_rules.revision.chars().all(|c| c.is_ascii_digit() || ('a'..='f').contains(&c)));
}

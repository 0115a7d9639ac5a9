use flood_mcp::digest::task_page;
use flood_mcp::sources::{
    project_memory_listing, project_resources_for_update, ProjectMemoryEntry, ProjectResourceInput, ProjectResourceKind,
    ResourceFacts,
};

fn ids(n: usize) -> Vec<String> {
    (0..n).map(|i| format!("T{i}")).collect()
}

#[test]
fn task_pages_follow_the_cursor() {
    let list = ids(60);
    let first = task_page(&list, None, None).unwrap();
    assert_eq!((first.start, first.end, first.total, first.remaining), (0, 25, 60, 35));
    assert_eq!(first.next_cursor.as_deref(), Some("T24"));
    let second = task_page(&list, Some("T24"), Some(100)).unwrap();
    assert_eq!((second.start, second.end, second.remaining), (25, 60, 0));
    assert!(second.next_cursor.is_none());
    let one = task_page(&list, Some("T58"), Some(0)).unwrap();
    assert_eq!((one.start, one.end, one.remaining), (59, 60, 0));
    assert_eq!(
        task_page(&list, Some("T99"), None).err().unwrap(),
        "cursor не найден в текущем списке задач; начните заново"
    );
    let empty = task_page(&Vec::new(), None, None).unwrap();
    assert_eq!((empty.start, empty.end, empty.total, empty.remaining), (0, 0, 0, 0));
}

fn resource(id: &str, kind: ProjectResourceKind, location: &str, access: bool) -> ResourceFacts {
    ResourceFacts {
        id: id.to_string(),
        label: id.to_string(),
        kind,
        location: location.to_string(),
        agent_access: access,
        is_github: false,
    }
}

fn input(id: &str, kind: ProjectResourceKind, location: &str) -> ProjectResourceInput {
    ProjectResourceInput {
        id: id.to_string(),
        kind,
        label: format!("{id} label"),
        location: location.to_string(),
        notes: None,
    }
}

#[test]
fn mcp_cannot_grant_or_retarget_resource_access() {
    let current = vec![
        resource("r1", ProjectResourceKind::Repository, "/work/app", true),
        resource("r2", ProjectResourceKind::Directory, "/work/docs", false),
    ];
    let updated = project_resources_for_update(
        &current,
        vec![
            input("r1", ProjectResourceKind::Repository, "  /work/app "),
            input("r2", ProjectResourceKind::Directory, "/work/docs"),
            input("r1", ProjectResourceKind::Directory, "/work/app"),
            input("r1", ProjectResourceKind::Repository, "/work/other"),
            input("r3", ProjectResourceKind::Repository, "/work/app"),
        ],
    );
    let access: Vec<bool> = updated.iter().map(|r| r.agent_access).collect();
    assert_eq!(access, vec![true, false, false, false, false]);
    assert_eq!(updated[0].location, "  /work/app ");
    assert_eq!(updated[0].label, "r1 label");
}

fn memory(text: &str, active: bool, pinned: bool, created: i128, updated: Option<i128>) -> ProjectMemoryEntry {
    ProjectMemoryEntry { text: text.to_string(), active, pinned, created_at_nanos: created, updated_at_nanos: updated }
}

#[test]
fn memory_listing_filters_sorts_and_cuts() {
    let entries = vec![
        memory("Deploy on Fridays", true, false, 1, None),
        memory("Old rule about deploy", false, false, 5, None),
        memory("Pinned deploy note", true, true, 0, None),
        memory("Unrelated", true, false, 9, None),
        memory("Latest deploy change", true, false, 1, Some(7)),
    ];
    let (page, total, truncated) = project_memory_listing(&entries, false, Some("  DEPLOY "), None).unwrap();
    assert_eq!(page, vec![2, 4, 0]);
    assert_eq!((total, truncated), (3, false));
    let (page, total, truncated) = project_memory_listing(&entries, true, None, Some(2)).unwrap();
    assert_eq!(page, vec![2, 3]);
    assert_eq!((total, truncated), (5, true));
    let (page, _, _) = project_memory_listing(&entries, true, Some("   "), Some(10)).unwrap();
    assert_eq!(page, vec![2, 3, 4, 0, 1]);
    assert_eq!(
        project_memory_listing(&entries, false, Some("x"), None).err().unwrap(),
        "Поиск по памяти должен содержать от 2 до 200 символов"
    );
}

use flood_mcp::walk::{
    resource_file_admission, resource_file_content, resource_file_path,
    child_order, search_child, search_file, walk_child, ChildEntry, EntryKind, ResourceSearchState, ResourceWalkState,
    SearchStep, WalkStep,
};

fn child(name: &str, relative: &str, kind: Option<EntryKind>, size: Option<u64>) -> ChildEntry {
    ChildEntry { name: name.to_string(), relative: relative.to_string(), kind, size }
}

fn walk_state(limit: usize) -> ResourceWalkState {
    ResourceWalkState {
        limit,
        entries: Vec::new(),
        truncated: false,
        skipped_generated_directories: 0,
        skipped_sensitive_entries: 0,
    }
}

fn search_state(query: &str, max_files: usize, limit: usize) -> ResourceSearchState {
    ResourceSearchState {
        query_lower: query.to_string(),
        max_files,
        limit,
        matches: Vec::new(),
        files_considered: 0,
        text_files_scanned: 0,
        files_skipped: 0,
        truncated: false,
        stopped: false,
    }
}

#[test]
fn children_are_visited_by_lowercase_name() {
    let names = vec!["b.txt".to_string(), "A.md".to_string(), "a.md".to_string(), "C".to_string()];
    assert_eq!(child_order(&names), vec![1, 2, 0, 3]);
}

#[test]
fn listing_records_skips_and_descends() {
    let mut walk = walk_state(10);
    assert_eq!(walk_child(&mut walk, &child("src", "src", Some(EntryKind::Directory), Some(0)), 0, 2), WalkStep::Descend);
    assert_eq!(walk_child(&mut walk, &child("lib", "src/lib", Some(EntryKind::Directory), Some(0)), 1, 2), WalkStep::Next);
    assert_eq!(walk_child(&mut walk, &child("a.rs", "src/a.rs", Some(EntryKind::File), Some(12)), 1, 2), WalkStep::Next);
    assert_eq!(walk_child(&mut walk, &child(".env", ".env", Some(EntryKind::File), Some(3)), 0, 2), WalkStep::Next);
    assert_eq!(
        walk_child(&mut walk, &child("node_modules", "node_modules", Some(EntryKind::Directory), Some(0)), 0, 2),
        WalkStep::Next
    );
    assert_eq!(walk_child(&mut walk, &child("link", "link", Some(EntryKind::Symlink), Some(0)), 0, 2), WalkStep::Next);
    assert_eq!(walk_child(&mut walk, &child("x", "x", None, None), 0, 2), WalkStep::Fail);
    let listed: Vec<(String, &str, Option<u64>)> = walk.entries.iter().map(|e| (e.path.clone(), e.kind, e.size)).collect();
    assert_eq!(
        listed,
        vec![
            ("src".to_string(), "directory", None),
            ("src/lib".to_string(), "directory", None),
            ("src/a.rs".to_string(), "file", Some(12)),
        ]
    );
    assert_eq!(walk.skipped_sensitive_entries, 1);
    assert_eq!(walk.skipped_generated_directories, 1);
    assert!(!walk.truncated);
}

#[test]
fn listing_stops_at_its_limit() {
    let mut walk = walk_state(1);
    assert_eq!(walk_child(&mut walk, &child("a", "a", Some(EntryKind::File), Some(1)), 0, 3), WalkStep::Next);
    assert_eq!(walk_child(&mut walk, &child("b", "b", Some(EntryKind::File), Some(1)), 0, 3), WalkStep::Stop);
    assert!(walk.truncated);
    assert_eq!(walk.entries.len(), 1);
}

#[test]
fn search_decides_per_entry() {
    let mut s = search_state("todo", 2, 10);
    assert_eq!(search_child(&mut s, &child("docs", "docs", Some(EntryKind::Directory), Some(0)), 0, 2), SearchStep::Descend);
    assert_eq!(search_child(&mut s, &child("deep", "docs/deep", Some(EntryKind::Directory), Some(0)), 1, 2), SearchStep::Next);
    assert!(s.truncated);
    assert_eq!(search_child(&mut s, &child("target", "target", Some(EntryKind::Directory), Some(0)), 0, 2), SearchStep::Next);
    assert_eq!(s.files_skipped, 1);
    assert_eq!(search_child(&mut s, &child("big.log", "big.log", Some(EntryKind::File), Some(600 * 1024)), 0, 2), SearchStep::Next);
    assert_eq!((s.files_considered, s.files_skipped), (1, 2));
    assert_eq!(search_child(&mut s, &child("a.md", "a.md", Some(EntryKind::File), Some(100)), 0, 2), SearchStep::Read);
    assert_eq!(search_child(&mut s, &child("b.md", "b.md", Some(EntryKind::File), Some(100)), 0, 2), SearchStep::Stop);
    assert!(s.stopped);
    assert_eq!(search_child(&mut s, &child("c.md", "c.md", Some(EntryKind::File), Some(100)), 0, 2), SearchStep::Stop);
    assert_eq!(s.files_considered, 2);
}

#[test]
fn search_file_adds_at_most_three_hits() {
    let mut s = search_state("todo", 10, 10);
    let text = "TODO one\r\nnothing\ntodo two\nx ToDo three\ntodo four\n";
    search_file(&mut s, "notes/a.md", Some(text.as_bytes().to_vec()));
    let hits: Vec<(String, usize, String)> = s.matches.iter().map(|h| (h.path.clone(), h.line, h.snippet.clone())).collect();
    assert_eq!(
        hits,
        vec![
            ("notes/a.md".to_string(), 1, "TODO one".to_string()),
            ("notes/a.md".to_string(), 3, "todo two".to_string()),
            ("notes/a.md".to_string(), 4, "x ToDo three".to_string()),
        ]
    );
    assert!(s.truncated);
    assert!(!s.stopped);
    assert_eq!(s.text_files_scanned, 1);
}

#[test]
fn search_file_stops_at_the_limit_and_skips_binaries() {
    let mut s = search_state("x", 10, 1);
    search_file(&mut s, "a", Some(b"x\nx\n".to_vec()));
    assert_eq!(s.matches.len(), 1);
    assert!(s.stopped && s.truncated);
    let mut s = search_state("x", 10, 5);
    search_file(&mut s, "b", Some(vec![b'x', 0, b'x']));
    search_file(&mut s, "c", Some(vec![0xff, 0xfe]));
    search_file(&mut s, "d", None);
    assert_eq!(s.files_skipped, 3);
    assert_eq!(s.text_files_scanned, 0);
    search_file(&mut s, "e", Some(b"one x\n".to_vec()));
    assert_eq!(s.matches.len(), 1);
    assert!(!s.truncated);
}

#[test]
fn resource_file_reads_are_checked_in_order() {
    assert_eq!(resource_file_path("./src//main.rs").unwrap(), "src/main.rs");
    assert_eq!(resource_file_path("").unwrap_err(), "Укажите относительный путь к файлу");
    assert_eq!(
        resource_file_path("config/.env").unwrap_err(),
        "Файл с потенциально секретными данными нельзя читать через этот коннектор"
    );
    assert!(resource_file_path("../x").is_err());
    assert!(resource_file_admission(true, 1_048_576).is_ok());
    assert_eq!(resource_file_admission(true, 1_048_577).unwrap_err(), "Файл больше безопасного лимита 1 МБ");
    assert_eq!(resource_file_admission(false, 1).unwrap_err(), "Указанный путь источника не является файлом");
}

#[test]
fn resource_file_content_is_text_bounded_and_hashed() {
    let c = resource_file_content(b"hello\nworld\n".to_vec(), None).unwrap();
    assert_eq!(c.content, "hello\nworld\n");
    assert_eq!(c.total_chars, 12);
    assert!(!c.truncated);
    assert_eq!(c.sha256, "4a1e67f2fe1d1cc7b31d0ca2ec441da4778203a036a77da10344c85e24ff0f92");
    let long = "a".repeat(1500);
    let c = resource_file_content(long.clone().into_bytes(), Some(10)).unwrap();
    assert!(c.truncated);
    assert_eq!(c.total_chars, 1500);
    assert_eq!(c.content, format!("{}\n\n…", "a".repeat(1000)));
    assert_eq!(resource_file_content(vec![b'a', 0], None).err().unwrap(), "Коннектор читает только текстовые файлы");
    assert_eq!(resource_file_content(vec![0xc3], None).err().unwrap(), "Коннектор читает только UTF-8 текстовые файлы");
}

use flood_mcp::diffs::{diff_probe_of, DiffAssembly, DiffProbe, FileFacts};
use flood_mcp::git::{local_git_task_query, parse_git_status_record};
use flood_mcp::gitctx::local_git_changed_files;
use flood_mcp::todos::{collect_related_git_todos, repository_file_listing, todo_candidate_files, todo_file_readable};

#[test]
fn changed_files_are_sorted_scoped_and_secrets_omitted() {
    let query = local_git_task_query("T-1", "# Fix login page");
    assert_eq!(query.task_id, "t-1");
    assert_eq!(query.terms, vec!["login", "page"]);
    let status = "M  src/login.rs\0?? .env\0 M web/main.rs\0?? out/x.txt\0";
    let changes = local_git_changed_files(status, "", 2, &query);
    let paths: Vec<&str> = changes.changed_files.iter().map(|c| c.path.as_str()).collect();
    assert_eq!(paths, vec!["out/x.txt", "src/login.rs"]);
    assert_eq!(changes.total_changed_files, 4);
    assert_eq!(changes.omitted_sensitive_files, 1);
    assert!(changes.files_truncated);
    assert_eq!(changes.changed_files[1].match_reasons, vec!["term:login"]);
}

#[test]
fn diff_assembly_probes_tracked_changes_only() {
    let query = local_git_task_query("T-1", "# Fix login page");
    let modified = parse_git_status_record(" M src/login.rs").unwrap();
    let untracked = parse_git_status_record("?? notes.txt").unwrap();
    let mut assembly = DiffAssembly::new(vec![untracked, modified], 10_000);
    assert_eq!(assembly.next_diff_request(), Some(1));
    assembly.record_diff_probe(
        DiffProbe::File { cached: None, worktree: Some("-old\n+login\n".to_string()) },
        &query,
    );
    assert_eq!(assembly.next_diff_request(), None);
    assert_eq!(assembly.diff_text(), "### src/login.rs\n## Рабочая копия\n-old\n+login\n");
    assert!(!assembly.diff_truncated());
    let changes = assembly.into_changes();
    assert!(changes[1].diff_included);
    assert!(!changes[0].diff_included);
}

#[test]
fn diff_assembly_warns_on_large_and_missing_files() {
    let query = local_git_task_query("T-1", "# Fix");
    let a = parse_git_status_record(" M a.rs").unwrap();
    let b = parse_git_status_record(" M b.rs").unwrap();
    let mut assembly = DiffAssembly::new(vec![a, b], 10_000);
    assert_eq!(assembly.next_diff_request(), Some(0));
    assembly.record_diff_probe(DiffProbe::Large, &query);
    assert_eq!(assembly.next_diff_request(), Some(1));
    assembly.record_diff_probe(DiffProbe::Unavailable, &query);
    assert_eq!(assembly.next_diff_request(), None);
    assert_eq!(assembly.omitted_large_files(), 1);
    let changes = assembly.into_changes();
    assert_eq!(changes[0].warning.as_deref(), Some("Diff большого файла пропущен"));
    assert_eq!(changes[1].warning.as_deref(), Some("Diff удалённого или недоступного файла пропущен"));
}

#[test]
fn todo_scan_reports_related_markers() {
    let query = local_git_task_query("T-1", "# Fix login page");
    let (listed, truncated) = repository_file_listing("b.rs\0a.rs\0a.rs\0.env\0node_modules/x.js\0", "");
    assert_eq!(listed, vec![".env", "a.rs", "b.rs", "node_modules/x.js"]);
    assert!(!truncated);
    let candidates = todo_candidate_files(&listed);
    assert!(candidates.contains(&"a.rs".to_string()));
    assert_eq!(candidates, vec!["a.rs".to_string(), "b.rs".to_string()]);
    let contents = vec![
        Some("// TODO login fix\nok".to_string()),
        Some("fixme: T-1 here".to_string()),
    ];
    let (todos, cut, sensitive) = collect_related_git_todos(&listed, false, &contents, &query);
    let got: Vec<(String, usize, String, Vec<String>)> =
        todos.iter().map(|t| (t.path.clone(), t.line, t.marker.clone(), t.match_reasons.clone())).collect();
    assert_eq!(
        got,
        vec![
            ("a.rs".to_string(), 1, "TODO".to_string(), vec!["term:login".to_string()]),
            ("b.rs".to_string(), 1, "FIXME".to_string(), vec!["task_id".to_string()]),
        ]
    );
    assert_eq!(todos[0].text, "// TODO login fix");
    assert!(!cut);
    assert_eq!(sensitive, 1);
}

fn facts(is_symlink: bool, is_file: bool, len: u64) -> Option<FileFacts> {
    Some(FileFacts { is_symlink, is_file, len })
}

#[test]
fn file_facts_decide_diff_probe_and_todo_reads() {
    assert!(matches!(diff_probe_of(None, None, None), DiffProbe::Unavailable));
    assert!(matches!(diff_probe_of(facts(true, false, 1), None, None), DiffProbe::Symlink));
    assert!(matches!(diff_probe_of(facts(false, false, 1), None, None), DiffProbe::Unavailable));
    assert!(matches!(diff_probe_of(facts(false, true, 262_145), None, None), DiffProbe::Large));
    match diff_probe_of(facts(false, true, 262_144), Some("d".into()), None) {
        DiffProbe::File { cached, worktree } => {
            assert_eq!(cached.as_deref(), Some("d"));
            assert_eq!(worktree, None);
        }
        _ => panic!("a small regular file is read"),
    }
    assert!(todo_file_readable(facts(false, true, 262_144)));
    assert!(!todo_file_readable(facts(false, true, 262_145)));
    assert!(!todo_file_readable(facts(true, true, 10)));
    assert!(!todo_file_readable(facts(false, false, 10)));
    assert!(!todo_file_readable(None));
}

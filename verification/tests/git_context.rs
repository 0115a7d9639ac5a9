use flood_mcp::git::{
    collect_related_git_commits, git_text_match_reasons, local_git_task_query,
    parse_git_status_record, related_commit_shas, LocalGitTaskQuery,
};
use flood_mcp::paths::{
    relative_path_display, resource_directory_is_generated, resource_path_looks_secret,
    scope_repository_relative_path, validate_resource_relative_path,
};

#[test]
fn git_status_parser_keeps_index_worktree_and_untracked_states() {
    let staged = parse_git_status_record("M  src/app.rs").unwrap();
    assert_eq!(staged.index_status.as_deref(), Some("M"));
    assert_eq!(staged.worktree_status, None);
    assert!(!staged.untracked);

    let both = parse_git_status_record("MM src/lib.rs").unwrap();
    assert_eq!(both.index_status.as_deref(), Some("M"));
    assert_eq!(both.worktree_status.as_deref(), Some("M"));

    let untracked = parse_git_status_record("?? notes.txt").unwrap();
    assert!(untracked.untracked);
    assert_eq!(untracked.index_status, None);
    assert_eq!(untracked.worktree_status, None);
    assert!(parse_git_status_record(" M ../outside.txt").is_none());
}

#[test]
fn git_status_parser_rejects_short_and_rooted_records() {
    assert!(parse_git_status_record("M ").is_none());
    assert!(parse_git_status_record("MMxpath").is_none());
    assert!(parse_git_status_record("A  /etc/passwd").is_none());
    let renamed = parse_git_status_record(" D docs/old.md").unwrap();
    assert_eq!(renamed.path, "docs/old.md");
    assert_eq!(renamed.index_status, None);
    assert_eq!(renamed.worktree_status.as_deref(), Some("D"));
}

#[test]
fn resource_paths_are_validated_and_normalized() {
    assert_eq!(validate_resource_relative_path(" ./src//app.rs/ ").unwrap(), "src/app.rs");
    assert_eq!(validate_resource_relative_path("").unwrap(), "");
    assert_eq!(
        validate_resource_relative_path("a/../b").unwrap_err(),
        "Путь источника не может содержать .."
    );
    assert_eq!(
        validate_resource_relative_path("/abs").unwrap_err(),
        "Используйте относительный путь внутри источника"
    );
    assert_eq!(relative_path_display(""), ".");
    assert_eq!(relative_path_display("a\\b"), "a/b");
}

#[test]
fn secret_and_generated_paths_are_recognized() {
    assert!(resource_path_looks_secret(".env"));
    assert!(resource_path_looks_secret("config/.env.local"));
    assert!(resource_path_looks_secret("keys/Server.PEM"));
    assert!(resource_path_looks_secret("home/id_rsa"));
    assert!(!resource_path_looks_secret("src/environment.rs"));
    assert!(!resource_path_looks_secret("docs/keys.md"));
    assert!(resource_directory_is_generated("Node_Modules"));
    assert!(resource_directory_is_generated(".git"));
    assert!(!resource_directory_is_generated("src"));
}

#[test]
fn repository_paths_are_scoped_to_the_configured_directory() {
    assert_eq!(scope_repository_relative_path("src/app.txt", "src").as_deref(), Some("app.txt"));
    assert_eq!(scope_repository_relative_path("src/app.txt", "").as_deref(), Some("src/app.txt"));
    assert_eq!(scope_repository_relative_path("notes.txt", "src"), None);
    assert_eq!(scope_repository_relative_path("src", "src"), None);
    assert_eq!(scope_repository_relative_path("a/b/c.rs", "a/b").as_deref(), Some("c.rs"));
    assert_eq!(scope_repository_relative_path("../x", ""), None);
    assert_eq!(scope_repository_relative_path("", ""), None);
}

#[test]
fn task_query_keeps_distinct_long_non_stop_words() {
    let query = local_git_task_query(
        "TASK-01ABC",
        "# Fix display layout display for the Sidebar task\n\nnotes",
    );
    assert_eq!(query.task_id, "task-01abc");
    assert_eq!(query.terms, vec!["display", "layout", "sidebar"]);
}

#[test]
fn match_reasons_report_task_id_and_terms_up_to_four() {
    let query = LocalGitTaskQuery {
        task_id: "task-1".into(),
        terms: vec!["alpha".into(), "beta".into(), "gamma".into(), "delta".into()],
    };
    assert_eq!(
        git_text_match_reasons("Task-1: Alpha BETA gamma delta", &query),
        vec!["task_id", "term:alpha", "term:beta", "term:gamma"]
    );
    assert!(git_text_match_reasons("unrelated", &query).is_empty());
}

#[test]
fn related_commits_are_selected_from_the_log() {
    let query = LocalGitTaskQuery { task_id: "task-test".into(), terms: vec!["display".into()] };
    let log = "aaaa\0aa\02024-01-01T00:00:00Z\0Fix display layout\x1e\nbbbb\0bb\0\0initial\x1e\n";
    assert_eq!(related_commit_shas(log, &query), vec!["aaaa"]);
    let shows = vec!["src/app.txt\0.env\0".to_string()];
    let (commits, truncated) = collect_related_git_commits(Some(log), &shows, "", &query);
    assert!(!truncated);
    assert_eq!(commits.len(), 1);
    assert_eq!(commits[0].subject, "Fix display layout");
    assert_eq!(commits[0].files, vec!["src/app.txt"]);
    assert_eq!(commits[0].committed_at.as_deref(), Some("2024-01-01T00:00:00Z"));
    assert_eq!(commits[0].match_reasons, vec!["term:display"]);
    let (none, _) = collect_related_git_commits(None, &shows, "", &query);
    assert!(none.is_empty());
}

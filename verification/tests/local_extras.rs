use flood_mcp::catalog::catalog_order;
use flood_mcp::gitctx::{configured_scope_name, git_branch_name, local_git_limits, local_git_omissions, parse_git_head};
use flood_mcp::selfcheck::protocols_match_sdk;
use flood_mcp::walk::{path_below_root, resource_listing_walk, resource_search};

#[test]
fn git_head_is_read_from_log_output() {
    let h = parse_git_head("abc123\0abc\0Fix login\02024-05-01T10:00:00+02:00\r\n").unwrap();
    assert_eq!(h.sha, "abc123");
    assert_eq!(h.short_sha, "abc");
    assert_eq!(h.subject, "Fix login");
    assert_eq!(h.committed_at.as_deref(), Some("2024-05-01T10:00:00+02:00"));
    let h = parse_git_head("abc123\0abc\0\0\n").unwrap();
    assert_eq!(h.subject, "");
    assert!(h.committed_at.is_none());
    let h = parse_git_head("abc123").unwrap();
    assert_eq!((h.short_sha.as_str(), h.subject.as_str()), ("", ""));
    assert!(parse_git_head("\n").is_none());
    assert!(parse_git_head("").is_none());
}

#[test]
fn branch_and_scope_follow_git_output() {
    assert_eq!(git_branch_name(Some(" main\n".to_string())).as_deref(), Some("main"));
    assert!(git_branch_name(Some("\n".to_string())).is_none());
    assert!(git_branch_name(None).is_none());
    assert_eq!(configured_scope_name(""), "repository_root");
    assert_eq!(configured_scope_name("apps/web"), "repository_subdirectory");
}

#[test]
fn listing_and_search_arguments_are_clamped() {
    let (walk, depth) = resource_listing_walk(None, None);
    assert_eq!((walk.limit, depth), (100, 2));
    let (walk, depth) = resource_listing_walk(Some(0), Some(9));
    assert_eq!((walk.limit, depth), (1, 5));
    let (search, depth) = resource_search("  Login Form ", None, None, None).unwrap();
    assert_eq!(search.query_lower, "login form");
    assert_eq!((search.max_files, search.limit, depth), (300, 20, 6));
    let (search, depth) = resource_search("ab", Some(5), Some(99), Some(0)).unwrap();
    assert_eq!((search.max_files, search.limit, depth), (10, 50, 1));
    assert_eq!(
        resource_search(" a ", None, None, None).err().unwrap(),
        "Поисковый запрос должен содержать от 2 до 200 символов"
    );
    assert!(resource_search(&"x".repeat(201), None, None, None).is_err());
}

#[test]
fn paths_below_the_root_are_compared_by_component() {
    assert_eq!(path_below_root("/srv/app/src/main.rs", "/srv/app").unwrap(), "src/main.rs");
    assert_eq!(path_below_root("/srv/app", "/srv/app").unwrap(), "");
    assert_eq!(path_below_root("/srv/apps/x", "/srv/app").unwrap_err(), "Путь выходит за разрешённый корень источника");
}

#[test]
fn catalog_is_ordered_by_name() {
    let names = vec!["list_tasks".to_string(), "get_task".to_string(), "add_project_memory".to_string()];
    assert_eq!(catalog_order(&names), vec![2, 1, 0]);
}

#[test]
fn sdk_protocols_must_match_in_order() {
    let v = |xs: &[&str]| xs.iter().map(|x| x.to_string()).collect::<Vec<_>>();
    assert!(protocols_match_sdk(&v(&["2025-06-18", "2025-11-25", "2026-07-28"])));
    assert!(!protocols_match_sdk(&v(&["2025-11-25", "2025-06-18", "2026-07-28"])));
    assert!(!protocols_match_sdk(&v(&["2025-06-18", "2025-11-25"])));
}

#[test]
fn local_git_omissions_take_the_larger_count() {
    assert_eq!(local_git_omissions(2, 5, false, false), (5, false));
    assert_eq!(local_git_omissions(3, 1, false, true), (3, true));
    assert_eq!(local_git_omissions(0, 0, true, false), (0, true));
}

#[test]
fn local_git_limits_default_and_clamp() {
    assert_eq!(local_git_limits(None, None), (50, 20_000));
    assert_eq!(local_git_limits(Some(0), Some(10)), (1, 4_000));
    assert_eq!(local_git_limits(Some(500), Some(90_000)), (100, 40_000));
    assert_eq!(local_git_limits(Some(7), Some(5_000)), (7, 5_000));
}

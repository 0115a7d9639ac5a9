use flood_mcp::agents::AgentRunState;
use flood_mcp::sources::{
    agent_directory_candidates, brief_tools, compact_active_project_memory, detect_task_local_git_resources,
    find_project_resource, github_resource_authorization, project_context_excerpt, triage_context_tools, without_triage_context, local_resource_authorization, project_resource_access, task_work_tools, ChatCounts, MemoryEntryFacts, ProjectResourceKind, ResourceFacts,
};

fn res(id: &str, kind: ProjectResourceKind, location: &str, access: bool, github: bool) -> ResourceFacts {
    ResourceFacts { id: id.into(), label: format!("L{id}"), kind, location: location.into(), agent_access: access, is_github: github }
}

#[test]
fn resource_access_names_method_and_next_step() {
    let gh = project_resource_access(&res("g", ProjectResourceKind::Repository, "https://github.com/a/b", true, true));
    assert_eq!(gh.access_method, "flood_github_connector");
    assert!(gh.next_step.starts_with("GitHub-репозиторий разрешён пользователем"));
    let figma = project_resource_access(&res("f", ProjectResourceKind::Figma, "x", true, false));
    assert_eq!(figma.access_method, "figma_connector");
    assert_eq!(figma.next_step, "Источник разрешён пользователем; откройте адрес настроенным Figma-коннектором");
    let closed = project_resource_access(&res("d", ProjectResourceKind::Directory, "/x", false, false));
    assert_eq!(closed.access_method, "flood_local_resource_reader");
    assert!(closed.requires_explicit_access);
    assert_eq!(closed.next_step, "Доступ не разрешён: попросите пользователя включить его в окне «Контекст проекта»");
    let web = project_resource_access(&res("w", ProjectResourceKind::Website, "x", true, false));
    assert_eq!(web.access_method, "browser_or_connector");
    let other = project_resource_access(&res("o", ProjectResourceKind::Other, "x", true, false));
    assert_eq!(other.access_method, "client_connector");
}

#[test]
fn local_git_resources_are_open_absolute_local_directories() {
    let rs = vec![
        res("1", ProjectResourceKind::Repository, "  /home/a/app ", true, false),
        res("2", ProjectResourceKind::Directory, "relative/dir", true, false),
        res("3", ProjectResourceKind::Skill, "/skills", true, false),
        res("4", ProjectResourceKind::Directory, "/closed", false, false),
        res("5", ProjectResourceKind::Directory, "/b", true, false),
    ];
    let found = detect_task_local_git_resources(&rs);
    let got: Vec<(String, String)> = found.iter().map(|r| (r.resource_id.clone(), r.path.clone())).collect();
    assert_eq!(got, vec![("1".to_string(), "/home/a/app".to_string()), ("5".to_string(), "/b".to_string())]);
    assert_eq!(found[0].label, "L1");
    assert_eq!(agent_directory_candidates(&rs), vec![0, 4]);
    let many: Vec<ResourceFacts> = (0..6).map(|i| res(&i.to_string(), ProjectResourceKind::Directory, "/x", true, false)).collect();
    assert_eq!(detect_task_local_git_resources(&many).len(), 4);
}

#[test]
fn brief_tools_suggest_what_is_missing() {
    let rs = vec![res("1", ProjectResourceKind::Directory, "/x", true, false)];
    let chats = vec![ChatCounts { agent_unprocessed_count: None, message_count: 3 }];
    assert_eq!(
        brief_tools("  ", &rs, &chats, false, false, true, false),
        vec![
            "update_project_context",
            "request_telegram_sync",
            "get_project_triage_context",
            "get_task_work_context",
            "list_project_resource_files",
            "search_project_resource",
            "create_task_from_telegram_discussion"
        ]
    );
    let quiet = vec![ChatCounts { agent_unprocessed_count: Some(0), message_count: 3 }];
    assert_eq!(
        brief_tools("ctx", &Vec::new(), &quiet, true, false, false, true),
        vec!["set_project_resources", "list_project_memory", "create_task_from_telegram_discussion"]
    );
}

#[test]
fn task_work_tools_follow_run_sources_and_telegram() {
    let rs = vec![
        res("1", ProjectResourceKind::Directory, "/x", true, false),
        res("2", ProjectResourceKind::Repository, "https://github.com/a/b", true, true),
    ];
    assert_eq!(
        task_work_tools(None, &rs, true, true, false, true, false),
        vec![
            "get_task_local_git_context",
            "get_task_github_context",
            "append_task_checkpoint",
            "search_project_resource",
            "read_project_resource_file",
            "get_github_repository_context",
            "search_github_repository",
            "read_github_repository_file",
            "request_telegram_image",
            "queue_task_for_agent"
        ]
    );
    assert_eq!(
        task_work_tools(Some(AgentRunState::ReadyForReview), &Vec::new(), false, false, true, true, true),
        vec![
            "append_task_checkpoint",
            "get_agent_run",
            "accept_agent_run",
            "request_telegram_sync",
            "read_telegram_message_context",
            "list_project_memory"
        ]
    );
}

#[test]
fn memory_digest_keeps_active_pinned_and_recent_first() {
    let e = |active: bool, pinned: bool, created: i128, updated: Option<i128>| MemoryEntryFacts {
        active,
        pinned,
        created_at_nanos: created,
        updated_at_nanos: updated,
    };
    let entries = vec![e(true, false, 1, Some(50)), e(false, true, 99, None), e(true, true, 2, None), e(true, false, 60, None)];
    let (kept, truncated) = compact_active_project_memory(&entries, 2);
    assert_eq!(kept, vec![2, 3]);
    assert!(truncated);
    let (all, t) = compact_active_project_memory(&entries, 20);
    assert_eq!(all, vec![2, 3, 0]);
    assert!(!t);
}

#[test]
fn resources_are_found_by_id() {
    let rs = vec![res("a", ProjectResourceKind::Website, "x", true, false), res("b", ProjectResourceKind::Repository, "/r", true, false)];
    assert_eq!(find_project_resource(&rs, "b"), Ok(1));
    assert_eq!(find_project_resource(&rs, "c"), Err("Источник проекта не найден".to_string()));
}

#[test]
fn local_reader_authorization_checks_kind_access_and_path() {
    assert!(local_resource_authorization(&res("a", ProjectResourceKind::Skill, "  /skills/x ", true, false)).is_ok());
    assert_eq!(
        local_resource_authorization(&res("a", ProjectResourceKind::Figma, "/x", true, false)).unwrap_err(),
        "Этот коннектор поддерживает repository, directory и skill"
    );
    assert_eq!(
        local_resource_authorization(&res("a", ProjectResourceKind::Directory, "/x", false, false)).unwrap_err(),
        "Доступ агента выключен; включите его для источника в окне «Контекст проекта»"
    );
    assert_eq!(
        local_resource_authorization(&res("a", ProjectResourceKind::Directory, "work/x", true, false)).unwrap_err(),
        "Для локального источника требуется абсолютный путь"
    );
}

#[test]
fn github_connector_authorization_checks_kind_access_and_url() {
    assert!(github_resource_authorization(&res("a", ProjectResourceKind::Repository, "https://github.com/a/b", true, true)).is_ok());
    assert_eq!(
        github_resource_authorization(&res("a", ProjectResourceKind::Directory, "/x", true, false)).unwrap_err(),
        "GitHub-коннектор поддерживает только repository"
    );
    assert_eq!(
        github_resource_authorization(&res("a", ProjectResourceKind::Repository, "https://github.com/a/b", false, true)).unwrap_err(),
        "Доступ агента выключен; включите его для репозитория в настройках проекта"
    );
    assert_eq!(
        github_resource_authorization(&res("a", ProjectResourceKind::Repository, "/local", true, false)).unwrap_err(),
        "Источник не является подключённым GitHub-репозиторием"
    );
}

#[test]
fn triage_context_suggests_tools_for_the_updates() {
    assert_eq!(
        triage_context_tools(true, true, true, true, false, false),
        vec![
            "request_telegram_image",
            "search_project_resource",
            "get_github_repository_context",
            "search_github_repository",
            "read_telegram_message_context",
            "preview_project_telegram_tasks",
            "request_telegram_sync",
        ]
    );
    assert!(triage_context_tools(false, false, false, false, true, false).is_empty());
    assert!(triage_context_tools(false, false, false, false, false, true).is_empty());
    assert_eq!(
        without_triage_context(&vec!["get_task_work_context", "get_project_triage_context", "list_project_memory"]),
        vec!["get_task_work_context", "list_project_memory"]
    );
}

#[test]
fn project_context_excerpt_is_bounded() {
    let short = "## Context\nshort";
    assert_eq!(project_context_excerpt(short, None), (short.to_string(), false));
    let long = "x".repeat(1500);
    let (text, cut) = project_context_excerpt(&long, Some(5));
    assert!(cut);
    assert_eq!(text, format!("{}\n\n…", "x".repeat(1000)));
    assert_eq!(project_context_excerpt(&long, None), (long.clone(), false));
}

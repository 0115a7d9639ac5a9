use flood_mcp::search::{
    rank_search_hits, search_query, split_whitespace, task_search_hit, SearchableTask, TaskSearchHit, TaskSource,
};
use flood_mcp::vocab::{TaskStatus, Urgency};

fn task(description: &str, source: Option<TaskSource>) -> SearchableTask {
    SearchableTask {
        id: "t1".into(),
        project_id: "p1".into(),
        description: description.into(),
        source,
        urgency: Urgency::Normal,
        status: TaskStatus::Open,
        updated_at: "2026-01-01T00:00:00+00:00".into(),
        version: "v1".into(),
    }
}

#[test]
fn search_query_trims_lowercases_and_splits() {
    let q = search_query("  Fix LOGIN  bug ").unwrap();
    assert_eq!(q.query, "Fix LOGIN  bug");
    assert_eq!(q.lower, "fix login  bug");
    assert_eq!(q.terms, vec!["fix", "login", "bug"]);
    assert_eq!(search_query("  ").err().unwrap(), "query должен содержать от 1 до 200 символов");
    assert_eq!(split_whitespace(" a\tb  c "), vec!["a", "b", "c"]);
}

#[test]
fn task_search_hit_scores_fields() {
    let t = task("# Login bug\nThe login form fails", None);
    let hit = task_search_hit(&t, "Web", "login", &vec!["login".to_string()]).unwrap();
    // title 120 + description 80 + title prefix 40
    assert_eq!(hit.score, 240);
    assert_eq!(hit.matched_fields, vec!["title", "description"]);
    assert_eq!(hit.title, "Login bug");
    assert_eq!(hit.snippet, "# Login bug The login form fails");
    assert!(!hit.has_source);
}

#[test]
fn task_search_hit_needs_every_term_somewhere() {
    let t = task("# Login bug", None);
    assert!(task_search_hit(&t, "Web", "login crash", &vec!["login".to_string(), "crash".to_string()]).is_none());
}

#[test]
fn task_search_hit_prefers_source_snippet_when_only_source_matches() {
    let source = TaskSource {
        text: "Клиент пишет про оплату".into(),
        author: Some("Анна".into()),
        chat_title: None,
        media_file_names: vec!["scan.pdf".into()],
    };
    let t = task("# Платёж", Some(source));
    let hit = task_search_hit(&t, "Shop", "оплату", &vec!["оплату".to_string()]).unwrap();
    assert_eq!(hit.score, 70);
    assert_eq!(hit.matched_fields, vec!["source"]);
    assert_eq!(hit.snippet, "Клиент пишет про оплату");
    assert!(hit.has_source);
    let meta = task_search_hit(&t, "Shop", "scan", &vec!["scan".to_string()]).unwrap();
    assert_eq!(meta.matched_fields, vec!["source_metadata"]);
    assert_eq!(meta.score, 40);
}

fn hit(score: u32, updated: &str) -> TaskSearchHit {
    TaskSearchHit {
        id: updated.into(),
        project_id: "p".into(),
        project_title: "P".into(),
        title: "t".into(),
        snippet: "s".into(),
        urgency: Urgency::Normal,
        status: TaskStatus::Open,
        updated_at: updated.into(),
        has_source: false,
        matched_fields: Vec::new(),
        version: "v".into(),
        score,
    }
}

#[test]
fn rank_search_hits_orders_by_score_then_recency() {
    let hits = vec![hit(10, "2026-01-01"), hit(30, "2026-01-01"), hit(10, "2026-02-01"), hit(30, "2025-01-01")];
    let ranked = rank_search_hits(&hits, Some(3));
    assert_eq!(ranked.positions, vec![1, 3, 2]);
    assert_eq!(ranked.total_matches, 4);
    assert!(ranked.truncated);
    let all = rank_search_hits(&hits, None);
    assert_eq!(all.positions, vec![1, 3, 2, 0]);
    assert!(!all.truncated);
}

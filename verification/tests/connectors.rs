use flood_mcp::connectors::{
    connector_links, telegram_connector_runtime, ConnectorHealth, ProjectConnectorFacts, TelegramConnectorReport,
};

fn report(step: &str, name: Option<&str>, username: Option<&str>) -> TelegramConnectorReport {
    TelegramConnectorReport {
        step: step.to_string(),
        configured: true,
        account_name: name.map(|n| n.to_string()),
        account_username: username.map(|n| n.to_string()),
        error: None,
    }
}

#[test]
fn telegram_steps_read_as_health() {
    let cases = [
        ("ready", ConnectorHealth::Ready),
        ("unconfigured", ConnectorHealth::Disconnected),
        ("database_error", ConnectorHealth::Error),
        ("error", ConnectorHealth::Error),
        ("waiting_qr", ConnectorHealth::Attention),
        ("waiting_code", ConnectorHealth::Attention),
        ("starting", ConnectorHealth::Connecting),
    ];
    for (step, health) in cases {
        assert_eq!(telegram_connector_runtime(Some(report(step, None, None))).health, health);
    }
    let r = telegram_connector_runtime(Some(report("ready", Some("Олег"), Some("tillwithered"))));
    assert_eq!(r.account_label.as_deref(), Some("tillwithered"));
    let r = telegram_connector_runtime(Some(report("ready", Some("Олег"), None)));
    assert_eq!(r.account_label.as_deref(), Some("Олег"));
    let r = telegram_connector_runtime(None);
    assert_eq!(r.health, ConnectorHealth::Disconnected);
    assert!(!r.configured);
    assert_eq!(r.detail.as_deref(), Some("Откройте flood.md, чтобы проверить локальный коннектор"));
}

#[test]
fn connector_links_count_distinct_sources() {
    let projects = vec![
        ProjectConnectorFacts {
            project_id: "p1".to_string(),
            chat_ids: vec![1, 2],
            github_locations: vec!["https://github.com/a/b".to_string()],
        },
        ProjectConnectorFacts { project_id: "p2".to_string(), chat_ids: vec![], github_locations: vec![] },
        ProjectConnectorFacts {
            project_id: "p3".to_string(),
            chat_ids: vec![2, 3, 3],
            github_locations: vec!["https://github.com/a/b".to_string(), "https://github.com/c/d".to_string()],
        },
    ];
    let links = connector_links(&projects);
    assert_eq!(links.telegram_project_ids, vec!["p1".to_string(), "p3".to_string()]);
    assert_eq!(links.telegram_sources, 3);
    assert_eq!(links.github_project_ids, vec!["p1".to_string(), "p3".to_string()]);
    assert_eq!(links.github_sources, 2);
}

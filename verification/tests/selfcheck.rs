use flood_mcp::catalog::{mcp_manifest, tool_names};
use flood_mcp::selfcheck::{binary_self_check, mcp_surface_checks, SelfCheckItem, ToolFacts};

fn registry() -> Vec<ToolFacts> {
    tool_names()
        .into_iter()
        .map(|name| ToolFacts {
            name: name.to_string(),
            has_output_schema: true,
            destructive_hint: if ["delete_project", "delete_project_memory", "delete_trashed_task", "empty_trash"]
                .contains(&name)
            {
                Some(true)
            } else {
                None
            },
        })
        .collect()
}

fn summary(checks: &[SelfCheckItem]) -> Vec<(String, bool, Option<String>)> {
    checks.iter().map(|c| (c.name.clone(), c.passed, c.detail.clone())).collect()
}

#[test]
fn full_registry_passes_every_surface_check() {
    let tools = registry();
    let manifest = mcp_manifest("0.4.0", &b"{}".to_vec());
    let checks = mcp_surface_checks(&tools, &manifest, true);
    assert_eq!(
        summary(&checks),
        vec![
            ("Реестр MCP-инструментов".to_string(), true, None),
            ("Идентичность MCP-каталога".to_string(), true, None),
            ("Структурированные ответы MCP".to_string(), true, None),
            ("Аннотации безопасности MCP".to_string(), true, None),
        ]
    );
    let core = vec![SelfCheckItem { name: "Хранилище".to_string(), passed: true, detail: None }];
    let (passed, all) = binary_self_check(true, core, &tools, &manifest, true);
    assert!(passed);
    assert_eq!(all.len(), 5);
    assert_eq!(all[0].name, "Хранилище");
}

#[test]
fn failing_checks_say_what_failed() {
    let mut tools = registry();
    tools.retain(|t| t.name != "run_self_check" && t.name != "link_tasks");
    tools[0].has_output_schema = false;
    for t in tools.iter_mut() {
        if t.name == "empty_trash" {
            t.destructive_hint = Some(false);
        }
    }
    let manifest = mcp_manifest("0.4.0", &b"{}".to_vec());
    let checks = mcp_surface_checks(&tools, &manifest, true);
    assert_eq!(checks[0].detail.as_deref(), Some("Не найдены: link_tasks, run_self_check"));
    assert!(!checks[1].passed);
    assert_eq!(
        checks[1].detail.clone().unwrap(),
        format!(
            "protocol 2026-07-28, supported {:?}, tools 93, revision {}",
            vec!["2025-06-18", "2025-11-25", "2026-07-28"],
            manifest.tool_catalog_revision
        )
    );
    assert_eq!(checks[2].detail.as_deref(), Some(format!("Нет output schema: {}", tools[0].name).as_str()));
    assert_eq!(checks[3].detail.as_deref(), Some("Необратимый инструмент не помечен как destructive"));
    let (passed, _) = binary_self_check(true, Vec::new(), &tools, &manifest, true);
    assert!(!passed);
}

#[test]
fn self_check_fails_when_core_failed_or_protocols_differ() {
    let tools = registry();
    let manifest = mcp_manifest("0.4.0", &b"{}".to_vec());
    let (passed, checks) = binary_self_check(false, Vec::new(), &tools, &manifest, true);
    assert!(!passed);
    assert!(checks.iter().all(|c| c.passed));
    let (passed, checks) = binary_self_check(true, Vec::new(), &tools, &manifest, false);
    assert!(!passed);
    assert!(!checks[1].passed);
}

#[test]
fn binary_self_check_covers_the_mcp_surface() {
    let tools = registry();
    let manifest = mcp_manifest("0.4.0", &b"[]".to_vec());
    let (passed, checks) = binary_self_check(true, Vec::new(), &tools, &manifest, true);
    assert!(passed);
    for name in ["Реестр MCP-инструментов", "Структурированные ответы MCP", "Аннотации безопасности MCP"] {
        assert!(checks.iter().any(|check| check.name == name && check.passed), "нет проверки {name}");
    }
}

#[test]
fn identity_detail_escapes_versions_as_debug_does() {
    let tools = registry();
    let mut manifest = mcp_manifest("0.4.0", &b"{}".to_vec());
    manifest.supported_protocol_versions = vec!["2025\"06", "2026\\07"];
    let checks = mcp_surface_checks(&tools, &manifest, true);
    assert!(!checks[1].passed);
    let detail = checks[1].detail.clone().unwrap();
    assert!(detail.starts_with("protocol 2026-07-28, supported [\"2025\\\"06\", \"2026\\\\07\"], tools "));
}

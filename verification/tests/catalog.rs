use flood_mcp::catalog::{default_true, mcp_manifest, store_error, tool_catalog_count, tool_catalog_revision, tool_names};

#[test]
fn catalog_counts_every_declared_tool_once() {
    let names = tool_names();
    assert_eq!(tool_catalog_count(), names.len());
    assert_eq!(names.len(), 93);
    let mut sorted = names.clone();
    sorted.sort();
    sorted.dedup();
    assert_eq!(sorted.len(), names.len());
    for required in ["get_runtime_info", "check_project_context", "get_task_local_git_context", "run_self_check"] {
        assert!(names.contains(&required));
    }
}

#[test]
fn manifest_names_server_protocols_and_catalog() {
    let m = mcp_manifest("0.3.1", &br#"[{"name":"x"}]"#.to_vec());
    assert_eq!(m.name, "flood.md");
    assert_eq!(m.version, "0.3.1");
    assert_eq!(m.protocol_version, "2026-07-28");
    assert_eq!(m.supported_protocol_versions, vec!["2025-06-18", "2025-11-25", "2026-07-28"]);
    assert_eq!(m.tool_catalog_revision, "d48733729423082abca843cafab298d4ee35783851d51b30d4c55c9516116b61");
    assert_eq!(m.tool_count, 93);
    assert_eq!(tool_catalog_revision(&Vec::new()).len(), 64);
}

#[test]
fn small_helpers_behave() {
    assert!(default_true());
    assert_eq!(store_error("database is locked"), "database is locked");
}

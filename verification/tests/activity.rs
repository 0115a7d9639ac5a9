use flood_mcp::activity::{
    audit_guidance, ensure_destructive_allowed, mcp_action_outcome, mutation_activity, ActivityApplyResult,
    ActivityCompensationStrategy, ActivityEntityKind, ActivityRecoveryAvailability, GuidanceRef, MutationExternalEffect,
    MutationReversibility, PolicyVerdict,
};

fn g(kind: &str, id: &str, version: &str) -> GuidanceRef {
    GuidanceRef { kind: kind.to_string(), id: id.to_string(), version: version.to_string() }
}

#[test]
fn activity_of_a_local_reversible_change_in_one_project() {
    let a = mutation_activity(
        MutationReversibility::Reversible,
        MutationExternalEffect::NoEffect,
        &vec![false, true],
        &vec!["p1".to_string()],
    );
    assert_eq!(a.recovery, ActivityRecoveryAvailability::Available);
    assert_eq!(a.result, ActivityApplyResult::Applied);
    assert_eq!(a.strategy, ActivityCompensationStrategy::LocalRollback);
    assert_eq!(a.entity_kind, ActivityEntityKind::Project);
    assert_eq!(a.project_id.as_deref(), Some("p1"));
    assert!(a.reversible);
}

#[test]
fn activity_compensation_follows_effect_and_reversibility() {
    let ids = vec!["p1".to_string(), "p2".to_string()];
    let a = mutation_activity(MutationReversibility::Irreversible, MutationExternalEffect::Write, &vec![], &ids);
    assert_eq!(a.strategy, ActivityCompensationStrategy::Unavailable);
    assert_eq!(a.recovery, ActivityRecoveryAvailability::Unavailable);
    assert_eq!(a.result, ActivityApplyResult::NoChanges);
    assert_eq!(a.entity_kind, ActivityEntityKind::Workspace);
    assert!(a.project_id.is_none());
    assert!(!a.reversible);
    let a = mutation_activity(MutationReversibility::BestEffort, MutationExternalEffect::Write, &vec![true], &ids);
    assert_eq!(a.strategy, ActivityCompensationStrategy::ExternalCompensatingAction);
    assert_eq!(a.recovery, ActivityRecoveryAvailability::BestEffort);
    assert!(a.reversible);
    let a = mutation_activity(MutationReversibility::BestEffort, MutationExternalEffect::NoEffect, &vec![], &vec![]);
    assert_eq!(a.strategy, ActivityCompensationStrategy::NoAction);
    let a = mutation_activity(MutationReversibility::Irreversible, MutationExternalEffect::NoEffect, &vec![], &vec![]);
    assert_eq!(a.strategy, ActivityCompensationStrategy::Unavailable);
}

#[test]
fn audit_guidance_sorts_and_drops_repeats() {
    let input = vec![
        g("skill", "s2", "v1"),
        g("rule", "r1", "v2"),
        g("rule", "r1", "v1"),
        g("skill", "s2", "v1"),
        g("rule", "r1", "v2"),
    ];
    let out: Vec<(String, String, String)> =
        audit_guidance(true, &input).into_iter().map(|x| (x.kind, x.id, x.version)).collect();
    assert_eq!(
        out,
        vec![
            ("rule".to_string(), "r1".to_string(), "v1".to_string()),
            ("rule".to_string(), "r1".to_string(), "v2".to_string()),
            ("skill".to_string(), "s2".to_string(), "v1".to_string()),
        ]
    );
    assert!(audit_guidance(false, &input).is_empty());
}

#[test]
fn action_gates_follow_policy_and_flag() {
    assert!(mcp_action_outcome(PolicyVerdict::Allow, "no".to_string()).is_ok());
    assert_eq!(mcp_action_outcome(PolicyVerdict::RequireConfirmation, "ask".to_string()), Err("ask".to_string()));
    assert_eq!(mcp_action_outcome(PolicyVerdict::Deny, "no".to_string()), Err("no".to_string()));
    assert!(ensure_destructive_allowed(true).is_ok());
    assert!(ensure_destructive_allowed(false).unwrap_err().contains("FLOOD_MCP_ALLOW_DESTRUCTIVE=1"));
}

#[test]
fn irreversible_actions_are_disabled_by_default() {
    let error = ensure_destructive_allowed(false).unwrap_err();
    assert!(error.contains("Необратимые MCP-действия отключены"));
}

#[test]
fn irreversible_actions_require_explicit_server_mode() {
    assert_eq!(ensure_destructive_allowed(true), Ok(()));
}

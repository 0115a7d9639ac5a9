//! What the activity log records of an applied mutation: whether it can be
//! recovered and how, what it changed, what it was about, and which guidance
//! the agent was following.
use vstd::prelude::*;

use crate::batch::source_less;
use crate::chars::chars_of;
use crate::order::chars_less;
use crate::paths::chars_eq;
use crate::stable::{as_ints, positions_below, sort_positions, stable_sort};

verus! {

/// How far a mutation can be undone.
#[derive(PartialEq, Eq, Structural, Clone, Copy, Debug)]
pub enum MutationReversibility {
    Reversible,
    BestEffort,
    Irreversible,
}

/// Whether a mutation writes outside flood.md.
#[derive(PartialEq, Eq, Structural, Clone, Copy, Debug)]
pub enum MutationExternalEffect {
    NoEffect,
    Write,
}

/// Whether a recorded mutation can be recovered.
#[derive(PartialEq, Eq, Structural, Clone, Copy, Debug)]
pub enum ActivityRecoveryAvailability {
    Available,
    BestEffort,
    Unavailable,
}

/// Whether an applied mutation changed anything.
#[derive(PartialEq, Eq, Structural, Clone, Copy, Debug)]
pub enum ActivityApplyResult {
    Applied,
    NoChanges,
}

/// How a recorded mutation would be compensated.
#[derive(PartialEq, Eq, Structural, Clone, Copy, Debug)]
pub enum ActivityCompensationStrategy {
    NoAction,
    LocalRollback,
    ExternalCompensatingAction,
    Unavailable,
}

/// What the activity entry is about.
#[derive(PartialEq, Eq, Structural, Clone, Copy, Debug)]
pub enum ActivityEntityKind {
    Project,
    Workspace,
}

/// The decisions of an activity entry for an applied mutation.
pub struct MutationActivity {
    pub recovery: ActivityRecoveryAvailability,
    pub result: ActivityApplyResult,
    pub strategy: ActivityCompensationStrategy,
    pub entity_kind: ActivityEntityKind,
    pub project_id: Option<String>,
    pub reversible: bool,
}

pub open spec fn spec_recovery(r: MutationReversibility) -> ActivityRecoveryAvailability {
    match r {
        MutationReversibility::Reversible => ActivityRecoveryAvailability::Available,
        MutationReversibility::BestEffort => ActivityRecoveryAvailability::BestEffort,
        MutationReversibility::Irreversible => ActivityRecoveryAvailability::Unavailable,
    }
}

/// An outside write is compensated by an outside action unless it cannot be
/// undone; a local change is rolled back when reversible; nothing can be
/// done for an irreversible one, and nothing is planned for a best-effort
/// local one.
pub open spec fn spec_strategy(e: MutationExternalEffect, r: MutationReversibility) -> ActivityCompensationStrategy {
    if e == MutationExternalEffect::Write {
        if r == MutationReversibility::Irreversible {
            ActivityCompensationStrategy::Unavailable
        } else {
            ActivityCompensationStrategy::ExternalCompensatingAction
        }
    } else if r == MutationReversibility::Reversible {
        ActivityCompensationStrategy::LocalRollback
    } else if r == MutationReversibility::Irreversible {
        ActivityCompensationStrategy::Unavailable
    } else {
        ActivityCompensationStrategy::NoAction
    }
}

/// The activity entry of a mutation with the given reversibility and outside
/// effect, whose operations reported `changed`, over the distinct projects
/// `project_ids`: it is about the project when there is exactly one.
pub fn mutation_activity(
    reversibility: MutationReversibility,
    external_effect: MutationExternalEffect,
    changed: &Vec<bool>,
    project_ids: &Vec<String>,
) -> (r: MutationActivity)
    ensures
        r.recovery == spec_recovery(reversibility),
        r.result == (if exists|i: int| 0 <= i < changed@.len() && #[trigger] changed@[i] {
            ActivityApplyResult::Applied
        } else {
            ActivityApplyResult::NoChanges
        }),
        r.strategy == spec_strategy(external_effect, reversibility),
        r.project_id == (if project_ids@.len() == 1 { Some(project_ids@[0]) } else { None }),
        r.entity_kind == (if project_ids@.len() == 1 { ActivityEntityKind::Project } else { ActivityEntityKind::Workspace }),
        r.reversible == (reversibility != MutationReversibility::Irreversible),
{
    let recovery = match reversibility {
        MutationReversibility::Reversible => ActivityRecoveryAvailability::Available,
        MutationReversibility::BestEffort => ActivityRecoveryAvailability::BestEffort,
        MutationReversibility::Irreversible => ActivityRecoveryAvailability::Unavailable,
    };
    let mut any = false;
    let mut i: usize = 0;
    while i < changed.len()
        invariant
            i <= changed@.len(),
            any == exists|j: int| 0 <= j < i && #[trigger] changed@[j],
        decreases changed.len() - i,
    {
        if changed[i] {
            any = true;
        }
        i = i + 1;
    }
    let result = if any { ActivityApplyResult::Applied } else { ActivityApplyResult::NoChanges };
    let strategy = match (external_effect, reversibility) {
        (MutationExternalEffect::Write, MutationReversibility::Irreversible) => ActivityCompensationStrategy::Unavailable,
        (MutationExternalEffect::Write, _) => ActivityCompensationStrategy::ExternalCompensatingAction,
        (_, MutationReversibility::Reversible) => ActivityCompensationStrategy::LocalRollback,
        (_, MutationReversibility::Irreversible) => ActivityCompensationStrategy::Unavailable,
        _ => ActivityCompensationStrategy::NoAction,
    };
    let project_id = if project_ids.len() == 1 { Some(project_ids[0].clone()) } else { None };
    let entity_kind = if project_ids.len() == 1 { ActivityEntityKind::Project } else { ActivityEntityKind::Workspace };
    MutationActivity {
        recovery,
        result,
        strategy,
        entity_kind,
        project_id,
        reversible: !matches!(recovery, ActivityRecoveryAvailability::Unavailable),
    }
}

/// A rule or skill, at a version, that guided the agent.
pub struct GuidanceRef {
    pub kind: String,
    pub id: String,
    pub version: String,
}

pub open spec fn guidance_view(g: GuidanceRef) -> (Seq<char>, Seq<char>, Seq<char>) {
    (g.kind@, g.id@, g.version@)
}

/// Guidance is ordered by id, then by version.
pub open spec fn guidance_before(g: Seq<GuidanceRef>) -> spec_fn(int, int) -> bool {
    |a: int, b: int| source_less((g[a].id@, g[a].version@), (g[b].id@, g[b].version@))
}

/// `s` with each run of equal neighbours kept once.
pub open spec fn dedup_adjacent(s: Seq<(Seq<char>, Seq<char>, Seq<char>)>) -> Seq<(Seq<char>, Seq<char>, Seq<char>)>
    decreases s.len(),
{
    if s.len() <= 1 {
        s
    } else if s.last() == s[s.len() - 2] {
        dedup_adjacent(s.drop_last())
    } else {
        dedup_adjacent(s.drop_last()).push(s.last())
    }
}

/// The guidance of the audited projects, as the log records it: sorted by id
/// and version (stably), equal neighbours kept once; none when the context
/// route is not enforced.
pub open spec fn spec_audit_guidance(enforce: bool, g: Seq<GuidanceRef>) -> Seq<(Seq<char>, Seq<char>, Seq<char>)> {
    if !enforce {
        Seq::empty()
    } else {
        dedup_adjacent(
            stable_sort(guidance_before(g), Seq::new(g.len(), |i: int| i)).map_values(|i: int| guidance_view(g[i])),
        )
    }
}

fn same_guidance(a: &GuidanceRef, b: &GuidanceRef) -> (r: bool)
    ensures
        r == (guidance_view(*a) == guidance_view(*b)),
{
    chars_eq(&chars_of(a.kind.as_str()), &chars_of(b.kind.as_str()))
        && chars_eq(&chars_of(a.id.as_str()), &chars_of(b.id.as_str()))
        && chars_eq(&chars_of(a.version.as_str()), &chars_of(b.version.as_str()))
}

/// The guidance that an applied mutation records, from the guidance of the
/// receipts of its projects.
pub fn audit_guidance(enforce_context_route: bool, guidance: &Vec<GuidanceRef>) -> (r: Vec<GuidanceRef>)
    ensures
        r@.map_values(|g: GuidanceRef| guidance_view(g)) == spec_audit_guidance(enforce_context_route, guidance@),
{
    if !enforce_context_route {
        let out: Vec<GuidanceRef> = Vec::new();
        assert(out@.map_values(|g: GuidanceRef| guidance_view(g)) =~= Seq::empty());
        return out;
    }
    let n = guidance.len();
    let all = positions_below(n);
    let order = sort_positions(
        &all,
        Ghost(guidance_before(guidance@)),
        n,
        (|a: usize, b: usize| -> (r: bool)
            requires
                a < n && b < n,
                n == guidance@.len(),
            ensures
                r == guidance_before(guidance@)(a as int, b as int),
            {
                let x = &guidance[a];
                let y = &guidance[b];
                let xi = chars_of(x.id.as_str());
                let yi = chars_of(y.id.as_str());
                if chars_less(&xi, &yi) {
                    true
                } else if chars_eq(&xi, &yi) {
                    chars_less(&chars_of(x.version.as_str()), &chars_of(y.version.as_str()))
                } else {
                    false
                }
            }),
    );
    assert(as_ints(all@) =~= Seq::new(guidance@.len(), |i: int| i));
    let ghost sorted = as_ints(order@).map_values(|i: int| guidance_view(guidance@[i]));
    let mut out: Vec<GuidanceRef> = Vec::new();
    let mut k: usize = 0;
    while k < order.len()
        invariant
            k <= order@.len(),
            n == guidance@.len(),
            forall|j: int| 0 <= j < order@.len() ==> (#[trigger] order@[j]) < n,
            sorted == as_ints(order@).map_values(|i: int| guidance_view(guidance@[i])),
            out@.map_values(|g: GuidanceRef| guidance_view(g)) == dedup_adjacent(sorted.take(k as int)),
        decreases order.len() - k,
    {
        let g = &guidance[order[k]];
        assert(sorted.take(k + 1).drop_last() == sorted.take(k as int));
        assert(sorted.take(k + 1).last() == guidance_view(*g));
        let keep = if k == 0 {
            true
        } else {
            assert(sorted.take(k + 1)[k - 1] == guidance_view(guidance@[order@[k - 1] as int]));
            !same_guidance(g, &guidance[order[k - 1]])
        };
        if keep {
            let ghost before = out@;
            out.push(GuidanceRef { kind: g.kind.clone(), id: g.id.clone(), version: g.version.clone() });
            assert(out@.map_values(|x: GuidanceRef| guidance_view(x)) == before.map_values(|x: GuidanceRef| guidance_view(x)).push(
                guidance_view(*g),
            ));
        }
        k = k + 1;
    }
    assert(sorted.take(order@.len() as int) == sorted);
    out
}


/// What the automation policy says of an action that an MCP client asks for.
#[derive(PartialEq, Eq, Structural, Clone, Copy, Debug)]
pub enum PolicyVerdict {
    Allow,
    RequireConfirmation,
    Deny,
}

/// An MCP action goes ahead only when the policy allows it; otherwise the
/// policy's reason is the error (an MCP client cannot confirm for the user).
pub fn mcp_action_outcome(verdict: PolicyVerdict, reason: String) -> (r: Result<(), String>)
    ensures
        match r {
            Ok(()) => verdict == PolicyVerdict::Allow,
            Err(e) => verdict != PolicyVerdict::Allow && e == reason,
        },
{
    match verdict {
        PolicyVerdict::Allow => Ok(()),
        PolicyVerdict::RequireConfirmation | PolicyVerdict::Deny => Err(reason),
    }
}

pub open spec fn msg_destructive_disabled() -> Seq<char> {
    "Необратимые MCP-действия отключены. Выполните удаление в приложении или явно запустите сервер с FLOOD_MCP_ALLOW_DESTRUCTIVE=1"@
}

/// Irreversible tools run only when the server was started to allow them.
pub fn ensure_destructive_allowed(allow_destructive: bool) -> (r: Result<(), String>)
    ensures
        match r {
            Ok(()) => allow_destructive,
            Err(e) => !allow_destructive && e@ == msg_destructive_disabled(),
        },
{
    if allow_destructive {
        Ok(())
    } else {
        Err(String::from_str("Необратимые MCP-действия отключены. Выполните удаление в приложении или явно запустите сервер с FLOOD_MCP_ALLOW_DESTRUCTIVE=1"))
    }
}

} // verus!

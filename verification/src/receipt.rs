use vstd::prelude::*;

use crate::chars::{chars_of, string_of};
use crate::context::{
    changes_view, spec_changes, spec_pending_rules, ProjectContextChange,
    contains_string, find_item, has_id, holds_version, item_ids, items_view, lemma_sorted_ids_distinct,
    spec_revision, upsert_item, version_seen, ContextItemVersion, EvidenceItem, ItemView,
    MaterialVersion, ProjectContextSnapshot,
};
use crate::order::{insert_sorted_unique, seq_less, str_views, strictly_sorted};
use crate::paths::chars_eq;
use crate::text::{join_exec, join_str, push_chars, push_str_chars};
use crate::vocab::ProjectWorkspaceItemKind;

verus! {

/// What a session has acknowledged of a project's context: the snapshot it
/// was given, and the rules and skills it still has to read in full. The
/// pending ids are kept in increasing order, each once.
pub struct ProjectContextReceipt {
    pub revision: String,
    pub snapshot: ProjectContextSnapshot,
    pub pending_rule_ids: Vec<String>,
    pub pending_skill_ids: Vec<String>,
}

impl ProjectContextReceipt {
    pub open spec fn wf(&self) -> bool {
        &&& self.snapshot.wf()
        &&& self.revision@ == self.snapshot.revision@
        &&& strictly_sorted(str_views(self.pending_rule_ids@))
        &&& strictly_sorted(str_views(self.pending_skill_ids@))
    }
}

/// A rule or skill as a work packet included it.
pub struct IncludedMaterial {
    pub id: String,
    pub agent_access: bool,
    pub version: String,
    pub content: String,
}

/// Id, access, version and body length of an included material.
pub type IncludedView = (Seq<char>, bool, Seq<char>, nat);

pub open spec fn included_views(s: Seq<IncludedMaterial>) -> Seq<IncludedView> {
    s.map_values(|m: IncludedMaterial| (m.id@, m.agent_access, m.version@, m.content@.len()))
}

/// The last included material with the id `id`, as a map keyed by id keeps.
pub open spec fn last_included(s: Seq<IncludedView>, id: Seq<char>) -> Option<IncludedView>
    decreases s.len(),
{
    if s.len() == 0 {
        None
    } else if s.last().0 == id {
        Some(s.last())
    } else {
        last_included(s.drop_last(), id)
    }
}

/// Whether the packet's copy of a material falls short of the evidence: no
/// access, another version, or a body of another length (a cut body).
pub open spec fn falls_short(m: IncludedView, e: EvidenceItem) -> bool {
    !m.1 || m.2 != e.version@ || m.3 != e.content_chars
}

/// A rule of the evidence stays pending unless the packet carried it whole.
pub open spec fn rule_left_pending(e: EvidenceItem, rules: Seq<IncludedView>) -> bool {
    e.kind == ProjectWorkspaceItemKind::Rule && match last_included(rules, e.id@) {
        None => true,
        Some(m) => falls_short(m, e),
    }
}

/// A skill of the evidence stays pending when the packet selected it but did
/// not carry it whole.
pub open spec fn skill_left_pending(e: EvidenceItem, skills: Seq<IncludedView>) -> bool {
    e.kind == ProjectWorkspaceItemKind::Skill && match last_included(skills, e.id@) {
        None => false,
        Some(m) => falls_short(m, e),
    }
}

pub open spec fn msg_packet_mismatch() -> Seq<char> {
    "Рабочий пакет и его исходные версии относятся к разным проектам"@
}

/// The index of the last material of `s` with the id `id`.
fn find_last_included(s: &Vec<IncludedMaterial>, id: &String) -> (r: Option<usize>)
    ensures
        match r {
            Some(k) => k < s@.len() && last_included(included_views(s@), id@) == Some(
                included_views(s@)[k as int],
            ),
            None => last_included(included_views(s@), id@) == None::<IncludedView>,
        },
{
    let ghost v = included_views(s@);
    let mut k: usize = s.len();
    assert(v.take(k as int) == v);
    while k > 0
        invariant
            k <= s@.len(),
            v == included_views(s@),
            last_included(v, id@) == last_included(v.take(k as int), id@),
        decreases k,
    {
        k = k - 1;
        assert(v.take(k + 1).drop_last() == v.take(k as int));
        assert(v.take(k + 1).last() == v[k as int]);
        if s[k].id == *id {
            return Some(k);
        }
    }
    None
}

/// Whether the packet's copy `m` falls short of the evidence item `e`.
fn copy_falls_short(m: &IncludedMaterial, e: &EvidenceItem) -> (r: bool)
    ensures
        r == falls_short((m.id@, m.agent_access, m.version@, m.content@.len()), *e),
{
    let chars = chars_of(m.content.as_str());
    !m.agent_access || m.version != e.version || chars.len() != e.content_chars
}

/// The receipt of a work packet built from `evidence`: its snapshot, the
/// rules the packet did not carry whole and the selected skills it cut.
pub fn receipt_for_packet(
    packet_project_id: &str,
    evidence_project_id: &str,
    evidence_project_version: &str,
    evidence: &Vec<EvidenceItem>,
    rules: &Vec<IncludedMaterial>,
    skills: &Vec<IncludedMaterial>,
    contract_version: u16,
) -> (r: Result<ProjectContextReceipt, String>)
    ensures
        r is Err <==> packet_project_id@ != evidence_project_id@,
        match r {
            Ok(receipt) => {
                &&& receipt.wf()
                &&& crate::context::keeps_last(
                    crate::context::evidence_view(evidence@),
                    receipt.snapshot.view_items(),
                )
                &&& receipt.snapshot.project_version@ == evidence_project_version@
                &&& receipt.revision@ == spec_revision(
                    contract_version,
                    evidence_project_id@,
                    evidence_project_version@,
                    receipt.snapshot.view_items(),
                )
                &&& forall|id: Seq<char>|
                    str_views(receipt.pending_rule_ids@).contains(id) <==> exists|j: int|
                        0 <= j < evidence@.len() && (#[trigger] evidence@[j]).id@ == id
                            && rule_left_pending(evidence@[j], included_views(rules@))
                &&& forall|id: Seq<char>|
                    str_views(receipt.pending_skill_ids@).contains(id) <==> exists|j: int|
                        0 <= j < evidence@.len() && (#[trigger] evidence@[j]).id@ == id
                            && skill_left_pending(evidence@[j], included_views(skills@))
            },
            Err(e) => e@ == msg_packet_mismatch(),
        },
{
    if !chars_eq(&chars_of(packet_project_id), &chars_of(evidence_project_id)) {
        return Err(String::from_str("Рабочий пакет и его исходные версии относятся к разным проектам"));
    }
    let ghost rv = included_views(rules@);
    let ghost sv = included_views(skills@);
    let mut pending_rules: Vec<String> = Vec::new();
    let mut pending_skills: Vec<String> = Vec::new();
    let mut j: usize = 0;
    while j < evidence.len()
        invariant
            j <= evidence@.len(),
            rv == included_views(rules@),
            sv == included_views(skills@),
            strictly_sorted(str_views(pending_rules@)),
            strictly_sorted(str_views(pending_skills@)),
            forall|id: Seq<char>|
                str_views(pending_rules@).contains(id) <==> exists|k: int|
                    0 <= k < j && (#[trigger] evidence@[k]).id@ == id && rule_left_pending(
                        evidence@[k],
                        rv,
                    ),
            forall|id: Seq<char>|
                str_views(pending_skills@).contains(id) <==> exists|k: int|
                    0 <= k < j && (#[trigger] evidence@[k]).id@ == id && skill_left_pending(
                        evidence@[k],
                        sv,
                    ),
        decreases evidence.len() - j,
    {
        let e = &evidence[j];
        let ghost old_rules = str_views(pending_rules@);
        let ghost old_skills = str_views(pending_skills@);
        if e.kind == ProjectWorkspaceItemKind::Rule {
            let pending = match find_last_included(rules, &e.id) {
                None => true,
                Some(k) => copy_falls_short(&rules[k], e),
            };
            if pending {
                insert_sorted_unique(&mut pending_rules, e.id.clone());
            }
        } else if e.kind == ProjectWorkspaceItemKind::Skill {
            let pending = match find_last_included(skills, &e.id) {
                None => false,
                Some(k) => copy_falls_short(&skills[k], e),
            };
            if pending {
                insert_sorted_unique(&mut pending_skills, e.id.clone());
            }
        }
        proof {
            assert forall|id: Seq<char>|
                str_views(pending_rules@).contains(id) <==> exists|k: int|
                    0 <= k < j + 1 && (#[trigger] evidence@[k]).id@ == id && rule_left_pending(
                        evidence@[k],
                        rv,
                    ) by {
                if old_rules.contains(id) {
                    let k = choose|k: int|
                        0 <= k < j && (#[trigger] evidence@[k]).id@ == id && rule_left_pending(
                            evidence@[k],
                            rv,
                        );
                }
                if exists|k: int|
                    0 <= k < j + 1 && (#[trigger] evidence@[k]).id@ == id && rule_left_pending(
                        evidence@[k],
                        rv,
                    ) {
                    let k = choose|k: int|
                        0 <= k < j + 1 && (#[trigger] evidence@[k]).id@ == id && rule_left_pending(
                            evidence@[k],
                            rv,
                        );
                    if k < j {
                        assert(old_rules.contains(id));
                    }
                }
            }
            assert forall|id: Seq<char>|
                str_views(pending_skills@).contains(id) <==> exists|k: int|
                    0 <= k < j + 1 && (#[trigger] evidence@[k]).id@ == id && skill_left_pending(
                        evidence@[k],
                        sv,
                    ) by {
                if old_skills.contains(id) {
                    let k = choose|k: int|
                        0 <= k < j && (#[trigger] evidence@[k]).id@ == id && skill_left_pending(
                            evidence@[k],
                            sv,
                        );
                }
                if exists|k: int|
                    0 <= k < j + 1 && (#[trigger] evidence@[k]).id@ == id && skill_left_pending(
                        evidence@[k],
                        sv,
                    ) {
                    let k = choose|k: int|
                        0 <= k < j + 1 && (#[trigger] evidence@[k]).id@ == id && skill_left_pending(
                            evidence@[k],
                            sv,
                        );
                    if k < j {
                        assert(old_skills.contains(id));
                    }
                }
            }
        }
        j = j + 1;
    }
    let snapshot = ProjectContextSnapshot::from_evidence(
        evidence_project_id,
        evidence_project_version,
        evidence,
        contract_version,
    );
    let revision = snapshot.revision.clone();
    Ok(
        ProjectContextReceipt {
            revision,
            snapshot,
            pending_rule_ids: pending_rules,
            pending_skill_ids: pending_skills,
        },
    )
}

/// Removes `x` from the increasing list of distinct strings `v`.
pub(crate) fn remove_sorted(v: &mut Vec<String>, x: &String)
    requires
        strictly_sorted(str_views(old(v)@)),
    ensures
        strictly_sorted(str_views(final(v)@)),
        forall|y: Seq<char>|
            str_views(final(v)@).contains(y) <==> (str_views(old(v)@).contains(y) && y != x@),
{
    let ghost s = str_views(v@);
    let mut i: usize = 0;
    while i < v.len()
        invariant
            i <= v@.len(),
            s == str_views(v@),
            forall|k: int| 0 <= k < i ==> s[k] != x@,
        ensures
            i <= v@.len(),
            s == str_views(v@),
            forall|k: int| 0 <= k < i ==> s[k] != x@,
            i < v@.len() ==> s[i as int] == x@,
        decreases v.len() - i,
    {
        if v[i] == *x {
            break;
        }
        i = i + 1;
    }
    if i == v.len() {
        assert forall|y: Seq<char>| s.contains(y) implies y != x@ by {
            let k = choose|k: int| 0 <= k < s.len() && s[k] == y;
        }
        return;
    }
    v.remove(i);
    proof {
        let t = str_views(v@);
        assert(t == s.remove(i as int));
        assert forall|a: int, b: int| 0 <= a < b < t.len() implies seq_less(#[trigger] t[a], #[trigger] t[b]) by {
            let a2 = if a < i { a } else { a + 1 };
            let b2 = if b < i { b } else { b + 1 };
            assert(seq_less(s[a2], s[b2]));
        }
        assert forall|y: Seq<char>| t.contains(y) <==> (s.contains(y) && y != x@) by {
            if t.contains(y) {
                let k = choose|k: int| 0 <= k < t.len() && t[k] == y;
                let k2 = if k < i { k } else { k + 1 };
                assert(s[k2] == y);
                crate::order::lemma_seq_less_irreflexive(y);
                if k2 < i {
                    assert(seq_less(s[k2], s[i as int]));
                } else {
                    assert(seq_less(s[i as int], s[k2]));
                }
            }
            if s.contains(y) && y != x@ {
                let k = choose|k: int| 0 <= k < s.len() && s[k] == y;
                if k < i {
                    assert(t[k] == y);
                } else {
                    assert(k != i);
                    assert(t[k - 1] == y);
                }
            }
        }
    }
}

/// What recording a full read of `item` does to a receipt: a current rule
/// or skill that the agent may receive leaves the pending list when the
/// receipt is still current and holds the material at this version; nothing
/// else changes.
pub open spec fn read_recorded(
    before: ProjectContextReceipt,
    after: ProjectContextReceipt,
    current: ProjectContextSnapshot,
    item: MaterialVersion,
) -> bool {
    let applies = item.agent_access && before.revision@ == current.revision@ && version_seen(
        current.view_items(),
        item.id@,
        item.version@,
    );
    &&& after.snapshot == before.snapshot
    &&& after.revision == before.revision
    &&& if applies && item.kind == ProjectWorkspaceItemKind::Rule {
        forall|y: Seq<char>|
            str_views(after.pending_rule_ids@).contains(y) <==> (str_views(before.pending_rule_ids@).contains(y)
                && y != item.id@)
    } else {
        after.pending_rule_ids == before.pending_rule_ids
    }
    &&& if applies && item.kind == ProjectWorkspaceItemKind::Skill {
        forall|y: Seq<char>|
            str_views(after.pending_skill_ids@).contains(y) <==> (str_views(before.pending_skill_ids@).contains(y)
                && y != item.id@)
    } else {
        after.pending_skill_ids == before.pending_skill_ids
    }
}

impl ProjectContextReceipt {
    /// Records that the session read `item` in full: a current rule or skill
    /// that the agent may receive leaves the pending list when the receipt is
    /// still current and holds the material at this version.
    pub fn mark_material_read(&mut self, current: &ProjectContextSnapshot, item: &MaterialVersion)
        requires
            old(self).wf(),
        ensures
            final(self).wf(),
            read_recorded(*old(self), *final(self), *current, *item),
    {
        if item.kind == ProjectWorkspaceItemKind::Document || !item.agent_access {
            return;
        }
        if self.revision == current.revision && holds_version(&current.items, &item.id, &item.version) {
            if item.kind == ProjectWorkspaceItemKind::Rule {
                remove_sorted(&mut self.pending_rule_ids, &item.id);
            } else {
                remove_sorted(&mut self.pending_skill_ids, &item.id);
            }
        }
    }
}

pub open spec fn msg_context_stale() -> Seq<char> {
    "Project Work Context устарел: перечитайте get_project_brief или get_task_work_context перед изменением"@
}

pub open spec fn msg_rules_cut() -> Seq<char> {
    "Project Work Context неполон: обязательные правила были усечены. Прочитайте каждое через get_project_workspace_item перед изменением: "@
}

pub open spec fn msg_skills_cut() -> Seq<char> {
    "Project Work Context неполон: выбранные skills были усечены. Прочитайте каждый через get_project_workspace_item перед изменением: "@
}

pub open spec fn msg_context_missing() -> Seq<char> {
    "Сначала получите Project Work Context через get_project_brief или get_task_work_context"@
}

/// What `require_project_context` answers.
pub open spec fn spec_require_context(
    enforce: bool,
    receipt: Option<ProjectContextReceipt>,
    current_revision: Seq<char>,
) -> Result<(), Seq<char>> {
    if !enforce {
        Ok(())
    } else {
        match receipt {
            None => Err(msg_context_missing()),
            Some(r) => if r.revision@ != current_revision {
                Err(msg_context_stale())
            } else if r.pending_rule_ids@.len() > 0 {
                Err(msg_rules_cut() + join_str(str_views(r.pending_rule_ids@), ", "@))
            } else if r.pending_skill_ids@.len() > 0 {
                Err(msg_skills_cut() + join_str(str_views(r.pending_skill_ids@), ", "@))
            } else {
                Ok(())
            },
        }
    }
}

fn message_with_ids(head: &str, ids: &Vec<String>) -> (r: String)
    ensures
        r@ == head@ + join_str(str_views(ids@), ", "@),
{
    let mut v: Vec<char> = Vec::new();
    push_str_chars(&mut v, head);
    let joined = join_exec(ids, ", ");
    push_chars(&mut v, &joined);
    string_of(&v)
}

/// Whether a change may go ahead: the session must hold a receipt of the
/// current context with no rule or skill left to read. The pending ids are
/// listed in increasing order.
pub fn require_project_context(
    enforce: bool,
    receipt: Option<&ProjectContextReceipt>,
    current_revision: &str,
) -> (r: Result<(), String>)
    ensures
        match (r, spec_require_context(enforce, match receipt { Some(x) => Some(*x), None => None }, current_revision@)) {
            (Ok(_), Ok(_)) => true,
            (Err(e), Err(m)) => e@ == m,
            _ => false,
        },
{
    if !enforce {
        return Ok(());
    }
    match receipt {
        None => Err(String::from_str("Сначала получите Project Work Context через get_project_brief или get_task_work_context")),
        Some(r) => {
            if !chars_eq(&chars_of(r.revision.as_str()), &chars_of(current_revision)) {
                Err(String::from_str("Project Work Context устарел: перечитайте get_project_brief или get_task_work_context перед изменением"))
            } else if r.pending_rule_ids.len() > 0 {
                Err(message_with_ids("Project Work Context неполон: обязательные правила были усечены. Прочитайте каждое через get_project_workspace_item перед изменением: ", &r.pending_rule_ids))
            } else if r.pending_skill_ids.len() > 0 {
                Err(message_with_ids("Project Work Context неполон: выбранные skills были усечены. Прочитайте каждый через get_project_workspace_item перед изменением: ", &r.pending_skill_ids))
            } else {
                Ok(())
            }
        },
    }
}

/// The version at which `items` holds `id`, if any.
pub open spec fn held_version(items: Seq<ItemView>, id: Seq<char>) -> Option<Seq<char>> {
    if has_id(items, id) {
        Some(items[choose|i: int| 0 <= i < items.len() && #[trigger] items[i].0 == id].2)
    } else {
        None
    }
}

pub open spec fn opt_str(o: Option<&str>) -> Option<Seq<char>> {
    match o {
        Some(s) => Some(s@),
        None => None,
    }
}

/// Removes the item with id `id` from the id-ordered `items`.
fn remove_item(items: &mut Vec<(String, ContextItemVersion)>, id: &String)
    requires
        strictly_sorted(item_ids(items_view(old(items)@))),
    ensures
        strictly_sorted(item_ids(items_view(final(items)@))),
        forall|k: Seq<char>|
            has_id(items_view(final(items)@), k) <==> (has_id(items_view(old(items)@), k) && k
                != id@),
        forall|i: int|
            0 <= i < final(items)@.len() ==> exists|m: int|
                0 <= m < old(items)@.len() && items_view(old(items)@)[m]
                    == #[trigger] items_view(final(items)@)[i],
{
    let ghost s = items_view(items@);
    match find_item(items, id) {
        None => {
            assert forall|i: int| 0 <= i < s.len() implies exists|m: int|
                0 <= m < s.len() && s[m] == #[trigger] s[i] by {}
        },
        Some(p) => {
            items.remove(p);
            proof {
                let t = items_view(items@);
                assert(t == s.remove(p as int));
                assert forall|a: int, b: int| 0 <= a < b < t.len() implies seq_less(
                    #[trigger] item_ids(t)[a],
                    #[trigger] item_ids(t)[b],
                ) by {
                    let a2 = if a < p { a } else { a + 1 };
                    let b2 = if b < p { b } else { b + 1 };
                    assert(seq_less(item_ids(s)[a2], item_ids(s)[b2]));
                }
                assert forall|k: Seq<char>| has_id(t, k) <==> (has_id(s, k) && k != id@) by {
                    if has_id(t, k) {
                        let i = choose|i: int| 0 <= i < t.len() && #[trigger] t[i].0 == k;
                        let i2 = if i < p { i } else { i + 1 };
                        assert(s[i2].0 == k);
                        lemma_sorted_ids_distinct(s, i2, p as int);
                    }
                    if has_id(s, k) && k != id@ {
                        let i = choose|i: int| 0 <= i < s.len() && #[trigger] s[i].0 == k;
                        if i < p {
                            assert(t[i].0 == k);
                        } else {
                            assert(t[i - 1].0 == k);
                        }
                    }
                }
                assert forall|i: int| 0 <= i < t.len() implies exists|m: int|
                    0 <= m < s.len() && s[m] == #[trigger] t[i] by {
                    if i < p {
                        assert(s[i] == t[i]);
                    } else {
                        assert(s[i + 1] == t[i]);
                    }
                }
            }
        },
    }
}

impl ProjectContextReceipt {
    /// Advances the receipt past the session's own change of the project: only
    /// when the receipt still holds the version that the change expected.
    pub fn acknowledge_project_mutation(
        &mut self,
        project_id: &str,
        project_version: &str,
        expected_version: &str,
        contract_version: u16,
    )
        requires
            old(self).wf(),
        ensures
            final(self).wf(),
            if old(self).snapshot.project_version@ == expected_version@ {
                &&& final(self).snapshot.project_version@ == project_version@
                &&& final(self).snapshot.items == old(self).snapshot.items
                &&& final(self).revision@ == spec_revision(
                    contract_version,
                    project_id@,
                    project_version@,
                    old(self).snapshot.view_items(),
                )
                &&& final(self).pending_rule_ids == old(self).pending_rule_ids
                &&& final(self).pending_skill_ids == old(self).pending_skill_ids
            } else {
                *final(self) == *old(self)
            },
    {
        if chars_eq(&chars_of(self.snapshot.project_version.as_str()), &chars_of(expected_version)) {
            self.snapshot.project_version = project_version.to_string();
            self.snapshot.refresh_revision(project_id, contract_version);
            self.revision = self.snapshot.revision.clone();
        }
    }

    /// Advances the receipt past the session's own write of a material: only
    /// when the receipt holds the material at `expected_version` (absent for a
    /// new one). The material enters the snapshot at its new version, or
    /// leaves it when the agent may no longer receive it; a real change, or
    /// lost access, takes it off the pending lists, and a no-op does not.
    pub fn acknowledge_material_mutation(
        &mut self,
        project_id: &str,
        item: &MaterialVersion,
        expected_version: Option<&str>,
        contract_version: u16,
    )
        requires
            old(self).wf(),
        ensures
            final(self).wf(),
            ({
                let old_items = old(self).snapshot.view_items();
                let new_items = final(self).snapshot.view_items();
                let previous = held_version(old_items, item.id@);
                if previous != opt_str(expected_version) {
                    *final(self) == *old(self)
                } else {
                    &&& final(self).snapshot.project_version == old(self).snapshot.project_version
                    &&& final(self).revision@ == spec_revision(
                        contract_version,
                        project_id@,
                        old(self).snapshot.project_version@,
                        new_items,
                    )
                    &&& if item.agent_access {
                        &&& forall|k: Seq<char>|
                            has_id(new_items, k) <==> (has_id(old_items, k) || k == item.id@)
                        &&& forall|i: int|
                            0 <= i < new_items.len() ==> if (#[trigger] new_items[i]).0
                                == item.id@ {
                                new_items[i] == (item.id@, item.kind, item.version@)
                            } else {
                                exists|m: int| 0 <= m < old_items.len() && old_items[m] == new_items[i]
                            }
                    } else {
                        &&& forall|k: Seq<char>|
                            has_id(new_items, k) <==> (has_id(old_items, k) && k != item.id@)
                        &&& forall|i: int|
                            0 <= i < new_items.len() ==> exists|m: int|
                                0 <= m < old_items.len() && old_items[m] == #[trigger] new_items[i]
                    }
                    &&& if previous != Some(item.version@) || !item.agent_access {
                        &&& forall|y: Seq<char>|
                            str_views(final(self).pending_rule_ids@).contains(y) <==> (str_views(
                                old(self).pending_rule_ids@,
                            ).contains(y) && y != item.id@)
                        &&& forall|y: Seq<char>|
                            str_views(final(self).pending_skill_ids@).contains(y) <==> (str_views(
                                old(self).pending_skill_ids@,
                            ).contains(y) && y != item.id@)
                    } else {
                        &&& final(self).pending_rule_ids == old(self).pending_rule_ids
                        &&& final(self).pending_skill_ids == old(self).pending_skill_ids
                    }
                }
            }),
    {
        let ghost old_items = self.snapshot.view_items();
        let found = find_item(&self.snapshot.items, &item.id);
        let matches_expected = match (found, expected_version) {
            (None, None) => true,
            (Some(m), Some(e)) => chars_eq(
                &chars_of(self.snapshot.items[m].1.version.as_str()),
                &chars_of(e),
            ),
            _ => false,
        };
        proof {
            if let Some(m) = found {
                let c = choose|i: int| 0 <= i < old_items.len() && #[trigger] old_items[i].0 == item.id@;
                if c != m {
                    lemma_sorted_ids_distinct(old_items, c, m as int);
                }
                assert(held_version(old_items, item.id@) == Some(old_items[m as int].2));
            }
        }
        if !matches_expected {
            return;
        }
        let changed = match found {
            None => true,
            Some(m) => self.snapshot.items[m].1.version != item.version,
        };
        if item.agent_access {
            upsert_item(&mut self.snapshot.items, item.id.clone(), item.kind, item.version.clone());
        } else {
            remove_item(&mut self.snapshot.items, &item.id);
        }
        if changed || !item.agent_access {
            remove_sorted(&mut self.pending_rule_ids, &item.id);
            remove_sorted(&mut self.pending_skill_ids, &item.id);
        }
        self.snapshot.refresh_revision(project_id, contract_version);
        self.revision = self.snapshot.revision.clone();
    }
}

/// How a session's context compares with the project's.
#[derive(PartialEq, Eq, Structural, Clone, Copy, Debug)]
pub enum ContextStatus {
    /// The session has no receipt to compare with.
    Missing,
    /// Nothing changed and nothing is left to read.
    Current,
    /// The context changed since the receipt.
    Stale,
    /// The context did not change, but rules or skills are left to read.
    Incomplete,
}

impl ContextStatus {
    pub fn as_str(&self) -> (r: &'static str)
        ensures
            r@ == status_name(*self),
    {
        match self {
            ContextStatus::Missing => "missing",
            ContextStatus::Current => "current",
            ContextStatus::Stale => "stale",
            ContextStatus::Incomplete => "incomplete",
        }
    }
}

pub open spec fn status_name(s: ContextStatus) -> Seq<char> {
    match s {
        ContextStatus::Missing => "missing"@,
        ContextStatus::Current => "current"@,
        ContextStatus::Stale => "stale"@,
        ContextStatus::Incomplete => "incomplete"@,
    }
}

/// The answer to a context check. A check never acknowledges changes.
pub struct ProjectContextCheck {
    pub project_id: String,
    pub status: ContextStatus,
    pub context_revision: String,
    pub previous_context_revision: Option<String>,
    pub project_version: String,
    /// Absent when the session has no receipt to compare with.
    pub project_changed: Option<bool>,
    pub changes: Vec<ProjectContextChange>,
    pub pending_rule_ids: Vec<String>,
    /// Selected skills whose current body the packet did not carry whole.
    pub pending_skill_ids: Vec<String>,
    pub requires_context_reload: bool,
    pub context_ready: bool,
    pub suggested_tools: Vec<&'static str>,
}

/// The rules pending for the session: against its receipt, or every rule of
/// the context when it has none.
pub open spec fn check_pending_rules(
    current: ProjectContextSnapshot,
    receipt: Option<ProjectContextReceipt>,
) -> Seq<Seq<char>> {
    match receipt {
        Some(r) => spec_pending_rules(
            current.view_items(),
            r.snapshot.view_items(),
            str_views(r.pending_rule_ids@),
        ),
        None => spec_pending_rules(current.view_items(), Seq::empty(), Seq::empty()),
    }
}

pub open spec fn check_pending_skills(receipt: Option<ProjectContextReceipt>) -> Seq<Seq<char>> {
    match receipt {
        Some(r) => str_views(r.pending_skill_ids@),
        None => Seq::empty(),
    }
}

/// The status of a check.
pub open spec fn spec_check_status(
    current: ProjectContextSnapshot,
    receipt: Option<ProjectContextReceipt>,
) -> ContextStatus {
    match receipt {
        None => ContextStatus::Missing,
        Some(r) => if r.revision@ != current.revision@ {
            ContextStatus::Stale
        } else if check_pending_rules(current, receipt).len() > 0 || check_pending_skills(receipt).len() > 0 {
            ContextStatus::Incomplete
        } else {
            ContextStatus::Current
        },
    }
}

pub open spec fn spec_suggested_tools(status: ContextStatus) -> Seq<Seq<char>> {
    match status {
        ContextStatus::Missing | ContextStatus::Stale => seq!["get_project_brief"@, "get_task_work_context"@],
        ContextStatus::Incomplete => seq!["get_project_workspace_item"@],
        ContextStatus::Current => Seq::empty(),
    }
}

pub open spec fn opt_string(o: Option<String>) -> Option<Seq<char>> {
    match o {
        Some(s) => Some(s@),
        None => None,
    }
}

pub open spec fn str_list(v: Seq<&'static str>) -> Seq<Seq<char>> {
    v.map_values(|s: &'static str| s@)
}

fn clone_string_list(v: &Vec<String>) -> (r: Vec<String>)
    ensures
        r@ == v@,
{
    let mut out: Vec<String> = Vec::new();
    let mut i: usize = 0;
    while i < v.len()
        invariant
            i <= v@.len(),
            out@ == v@.take(i as int),
        decreases v.len() - i,
    {
        out.push(v[i].clone());
        assert(out@ == v@.take(i + 1));
        i = i + 1;
    }
    assert(v@.take(v@.len() as int) == v@);
    out
}

/// Compares the session's receipt with the project's current context,
/// without acknowledging anything.
pub fn check_project_context(
    project_id: &str,
    current: &ProjectContextSnapshot,
    receipt: Option<&ProjectContextReceipt>,
) -> (r: ProjectContextCheck)
    requires
        current.wf(),
        match receipt {
            Some(x) => x.wf(),
            None => true,
        },
    ensures
        ({
            let rc = match receipt {
                Some(x) => Some(*x),
                None => None,
            };
            &&& r.project_id@ == project_id@
            &&& r.status == spec_check_status(*current, rc)
            &&& r.context_revision@ == current.revision@
            &&& r.project_version@ == current.project_version@
            &&& str_views(r.pending_rule_ids@) == check_pending_rules(*current, rc)
            &&& str_views(r.pending_skill_ids@) == check_pending_skills(rc)
            &&& r.requires_context_reload == (r.status == ContextStatus::Missing || r.status
                == ContextStatus::Stale)
            &&& r.context_ready == (r.status == ContextStatus::Current)
            &&& str_list(r.suggested_tools@) == spec_suggested_tools(r.status)
            &&& match rc {
                Some(x) => {
                    &&& opt_string(r.previous_context_revision) == Some(x.revision@)
                    &&& r.project_changed == Some(x.snapshot.project_version@ != current.project_version@)
                    &&& spec_changes(current.view_items(), x.snapshot.view_items(), changes_view(r.changes@))
                },
                None => {
                    &&& r.previous_context_revision is None
                    &&& r.project_changed is None
                    &&& r.changes@.len() == 0
                },
            }
        }),
{
    let pending_rule_ids = match receipt {
        Some(x) => current.pending_rules(&x.snapshot, &x.pending_rule_ids),
        None => {
            let nothing = ProjectContextSnapshot {
                revision: String::new(),
                project_version: String::new(),
                items: Vec::new(),
            };
            assert(nothing.view_items() == Seq::<ItemView>::empty());
            current.pending_rules(&nothing, &Vec::new())
        },
    };
    let pending_skill_ids = match receipt {
        Some(x) => clone_string_list(&x.pending_skill_ids),
        None => Vec::new(),
    };
    proof {
        if receipt is None {
            assert(str_views(pending_skill_ids@) == Seq::<Seq<char>>::empty());
        }
    }
    let status = match receipt {
        None => ContextStatus::Missing,
        Some(x) => if x.revision != current.revision {
            ContextStatus::Stale
        } else if pending_rule_ids.len() > 0 || pending_skill_ids.len() > 0 {
            ContextStatus::Incomplete
        } else {
            ContextStatus::Current
        },
    };
    let requires_context_reload = match status {
        ContextStatus::Missing | ContextStatus::Stale => true,
        _ => false,
    };
    let suggested_tools: Vec<&'static str> = if requires_context_reload {
        vec!["get_project_brief", "get_task_work_context"]
    } else if status == ContextStatus::Incomplete {
        vec!["get_project_workspace_item"]
    } else {
        Vec::new()
    };
    proof {
        assert(str_list(suggested_tools@) == spec_suggested_tools(status));
    }
    let (previous_context_revision, project_changed, changes) = match receipt {
        Some(x) => (
            Some(x.revision.clone()),
            Some(x.snapshot.project_version != current.project_version),
            current.changes_since(&x.snapshot),
        ),
        None => (None, None, Vec::new()),
    };
    ProjectContextCheck {
        project_id: project_id.to_string(),
        status,
        context_revision: current.revision.clone(),
        previous_context_revision,
        project_version: current.project_version.clone(),
        project_changed,
        changes,
        pending_rule_ids,
        pending_skill_ids,
        requires_context_reload,
        context_ready: status == ContextStatus::Current,
        suggested_tools,
    }
}

/// Whether `part` occurs in `text` as a run of consecutive characters.
pub open spec fn occurs_in(text: Seq<char>, part: Seq<char>) -> bool {
    exists|k: int| 0 <= k && k + part.len() <= text.len() && #[trigger] text.subrange(k, k + part.len()) == part
}

/// Law: the context route answers a change by what the session did before
/// it. Without a receipt it asks for the work context first; with a receipt
/// of another revision than the project's current one it calls the context
/// stale; with a receipt of the current revision it names each rule left
/// unread, then each skill left unread, and lets the change go ahead once
/// none is left.
pub proof fn lemma_context_route(receipt: ProjectContextReceipt, current_revision: Seq<char>, id: Seq<char>)
    ensures
        spec_require_context(true, None, current_revision) == Err::<(), Seq<char>>(msg_context_missing()),
        receipt.revision@ != current_revision ==> spec_require_context(true, Some(receipt), current_revision)
            == Err::<(), Seq<char>>(msg_context_stale()),
        receipt.revision@ == current_revision && str_views(receipt.pending_rule_ids@).contains(id) ==> ({
            let r = spec_require_context(true, Some(receipt), current_revision);
            &&& r is Err
            &&& r->Err_0.take(msg_rules_cut().len() as int) == msg_rules_cut()
            &&& occurs_in(r->Err_0, id)
        }),
        receipt.revision@ == current_revision && receipt.pending_rule_ids@.len() == 0 && str_views(
            receipt.pending_skill_ids@,
        ).contains(id) ==> ({
            let r = spec_require_context(true, Some(receipt), current_revision);
            &&& r is Err
            &&& r->Err_0.take(msg_skills_cut().len() as int) == msg_skills_cut()
            &&& occurs_in(r->Err_0, id)
        }),
        receipt.revision@ == current_revision && receipt.pending_rule_ids@.len() == 0
            && receipt.pending_skill_ids@.len() == 0 ==> spec_require_context(
            true,
            Some(receipt),
            current_revision,
        ) == Ok::<(), Seq<char>>(()),
{
    if receipt.revision@ == current_revision && str_views(receipt.pending_rule_ids@).contains(id) {
        lemma_message_names(msg_rules_cut(), str_views(receipt.pending_rule_ids@), id);
    }
    if receipt.revision@ == current_revision && receipt.pending_rule_ids@.len() == 0 && str_views(
        receipt.pending_skill_ids@,
    ).contains(id) {
        lemma_message_names(msg_skills_cut(), str_views(receipt.pending_skill_ids@), id);
    }
}

proof fn lemma_message_names(head: Seq<char>, parts: Seq<Seq<char>>, id: Seq<char>)
    requires
        parts.contains(id),
    ensures
        parts.len() > 0,
        (head + join_str(parts, ", "@)).take(head.len() as int) == head,
        occurs_in(head + join_str(parts, ", "@), id),
{
    let i = choose|i: int| 0 <= i < parts.len() && parts[i] == id;
    let j = join_str(parts, ", "@);
    lemma_join_holds_part(parts, ", "@, i);
    let k = choose|k: int| 0 <= k && k + id.len() <= j.len() && #[trigger] j.subrange(k, k + id.len()) == id;
    let m = head + j;
    assert(m.take(head.len() as int) =~= head);
    assert(m.subrange(head.len() + k, head.len() + k + id.len()) =~= j.subrange(k, k + id.len()));
}

proof fn lemma_join_holds_part(parts: Seq<Seq<char>>, sep: Seq<char>, i: int)
    requires
        0 <= i < parts.len(),
    ensures
        occurs_in(join_str(parts, sep), parts[i]),
    decreases parts.len(),
{
    let j = join_str(parts, sep);
    let p = parts[i];
    if parts.len() == 1 {
        let k: int = 0;
        assert(j.subrange(k, k + p.len()) =~= p);
        assert(occurs_in(j, p));
    } else {
        let head = join_str(parts.drop_last(), sep);
        if i == parts.len() - 1 {
            let k: int = (head.len() + sep.len()) as int;
            assert(j.subrange(k, k + p.len()) =~= p);
            assert(occurs_in(j, p));
        } else {
            assert(parts.drop_last()[i] == p);
            lemma_join_holds_part(parts.drop_last(), sep, i);
            let k = choose|k: int|
                0 <= k && k + p.len() <= head.len() && #[trigger] head.subrange(k, k + p.len()) == p;
            assert(j.subrange(k, k + p.len()) =~= head.subrange(k, k + p.len()));
            assert(occurs_in(j, p));
        }
    }
}

/// Law: the context route over a session in which a brief cut one rule.
/// Before any brief a change is refused for want of the context. The brief,
/// built from the project's current context, carries its revision; while the
/// cut rule is unread a change is refused as incomplete, naming the rule;
/// once the session reads that rule in full at its current version, a change
/// goes ahead; and when the project has changed since the brief, a change is
/// refused as stale.
pub proof fn lemma_receipt_lifecycle(
    current: ProjectContextSnapshot,
    project_id: Seq<char>,
    contract_version: u16,
    brief: ProjectContextReceipt,
    rule: MaterialVersion,
    after_read: ProjectContextReceipt,
    changed_revision: Seq<char>,
)
    requires
        brief.wf(),
        brief.snapshot.view_items() == current.view_items(),
        brief.snapshot.project_version@ == current.project_version@,
        current.revision@ == spec_revision(contract_version, project_id, current.project_version@, current.view_items()),
        brief.revision@ == spec_revision(
            contract_version,
            project_id,
            brief.snapshot.project_version@,
            brief.snapshot.view_items(),
        ),
        str_views(brief.pending_rule_ids@) == seq![rule.id@],
        brief.pending_skill_ids@.len() == 0,
        rule.kind == ProjectWorkspaceItemKind::Rule,
        rule.agent_access,
        version_seen(current.view_items(), rule.id@, rule.version@),
        read_recorded(brief, after_read, current, rule),
        changed_revision != current.revision@,
    ensures
        spec_require_context(true, None, current.revision@) == Err::<(), Seq<char>>(msg_context_missing()),
        brief.revision@ == current.revision@,
        ({
            let r = spec_require_context(true, Some(brief), current.revision@);
            &&& r is Err
            &&& r->Err_0.take(msg_rules_cut().len() as int) == msg_rules_cut()
            &&& occurs_in(r->Err_0, rule.id@)
        }),
        spec_require_context(true, Some(after_read), current.revision@) == Ok::<(), Seq<char>>(()),
        spec_require_context(true, Some(after_read), changed_revision) == Err::<(), Seq<char>>(msg_context_stale()),
{
    assert(str_views(brief.pending_rule_ids@).contains(rule.id@)) by {
        assert(seq![rule.id@][0] == rule.id@);
    }
    lemma_context_route(brief, current.revision@, rule.id@);
    let left = str_views(after_read.pending_rule_ids@);
    if left.len() > 0 {
        assert(left.contains(left[0]));
        assert(str_views(brief.pending_rule_ids@).contains(left[0]));
        assert(false);
    }
    assert(str_views(after_read.pending_rule_ids@).len() == after_read.pending_rule_ids@.len());
}

/// A receipt of the very context that the project now has, with no rule or
/// skill left to read, is current, and the check lists no change.
pub proof fn lemma_receipt_of_current_context_is_current(
    current: ProjectContextSnapshot,
    receipt: ProjectContextReceipt,
    contract_version: u16,
    project_id: Seq<char>,
    changes: Seq<crate::context::ChangeView>,
)
    requires
        current.wf(),
        receipt.wf(),
        current.view_items() == receipt.snapshot.view_items(),
        current.project_version@ == receipt.snapshot.project_version@,
        current.revision@ == spec_revision(
            contract_version,
            project_id,
            current.project_version@,
            current.view_items(),
        ),
        receipt.revision@ == spec_revision(
            contract_version,
            project_id,
            receipt.snapshot.project_version@,
            receipt.snapshot.view_items(),
        ),
        receipt.pending_rule_ids@.len() == 0,
        receipt.pending_skill_ids@.len() == 0,
        spec_changes(current.view_items(), receipt.snapshot.view_items(), changes),
    ensures
        spec_check_status(current, Some(receipt)) == ContextStatus::Current,
        changes.len() == 0,
{
    assert(str_views(receipt.pending_rule_ids@) == Seq::<Seq<char>>::empty());
    crate::context::lemma_no_pending_rules_when_seen(current);
    crate::context::lemma_no_changes_since_itself(current, changes);
}

} // verus!

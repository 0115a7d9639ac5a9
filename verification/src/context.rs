use vstd::prelude::*;
use vstd::utf8::encode_utf8;

use crate::chars::chars_of;
use crate::hashing::{hex_lower, push_utf8, sha256, sha256_hex};
use crate::order::{
    chars_less, lemma_seq_less_irreflexive, lemma_seq_less_total, lemma_seq_less_transitive,
    seq_less, strictly_sorted,
};
use crate::paths::chars_eq;
use crate::vocab::ProjectWorkspaceItemKind;

verus! {

/// The kind and version of one material in a context snapshot.
pub struct ContextItemVersion {
    pub kind: ProjectWorkspaceItemKind,
    pub version: String,
}

/// A project material as the snapshot reads it.
pub struct MaterialVersion {
    pub id: String,
    pub kind: ProjectWorkspaceItemKind,
    pub version: String,
    /// Whether the agent may receive this material in its work context.
    pub agent_access: bool,
}

/// One material version recorded in the evidence of a work packet.
pub struct EvidenceItem {
    pub id: String,
    pub kind: ProjectWorkspaceItemKind,
    pub version: String,
    /// Characters of the material's body when the packet was built.
    pub content_chars: usize,
}

/// The versions that a session has seen of a project's context: never a
/// second copy of the materials themselves. Items are ordered by id, each id
/// once.
pub struct ProjectContextSnapshot {
    pub revision: String,
    pub project_version: String,
    pub items: Vec<(String, ContextItemVersion)>,
}

/// Id, kind and version of a snapshot item.
pub type ItemView = (Seq<char>, ProjectWorkspaceItemKind, Seq<char>);

pub open spec fn item_view(e: (String, ContextItemVersion)) -> ItemView {
    (e.0@, e.1.kind, e.1.version@)
}

pub open spec fn items_view(s: Seq<(String, ContextItemVersion)>) -> Seq<ItemView> {
    s.map_values(|e: (String, ContextItemVersion)| item_view(e))
}

pub open spec fn item_ids(s: Seq<ItemView>) -> Seq<Seq<char>> {
    s.map_values(|e: ItemView| e.0)
}

/// Whether some item of `s` has the id `id`.
pub open spec fn has_id(s: Seq<ItemView>, id: Seq<char>) -> bool {
    exists|i: int| 0 <= i < s.len() && #[trigger] s[i].0 == id
}

/// Whether `r` is what collecting `entries` into a map ordered by id gives:
/// every id once, in increasing order, with the last entry written for it.
pub open spec fn keeps_last(entries: Seq<ItemView>, r: Seq<ItemView>) -> bool {
    &&& strictly_sorted(item_ids(r))
    &&& forall|id: Seq<char>| has_id(r, id) <==> has_id(entries, id)
    &&& forall|i: int| 0 <= i < r.len() ==> written_last(entries, #[trigger] r[i])
}

/// Whether no entry after the `j`-th has its id.
pub open spec fn last_of_id(entries: Seq<ItemView>, j: int) -> bool {
    forall|k: int| j < k < entries.len() ==> (#[trigger] entries[k]).0 != entries[j].0
}

/// Whether `e` is the last entry written for its id.
pub open spec fn written_last(entries: Seq<ItemView>, e: ItemView) -> bool {
    exists|j: int| 0 <= j < entries.len() && entries[j] == e && last_of_id(entries, j)
}

/// The materials that the agent may receive, in their order.
pub open spec fn accessible(materials: Seq<MaterialVersion>) -> Seq<ItemView>
    decreases materials.len(),
{
    if materials.len() == 0 {
        Seq::empty()
    } else {
        let m = materials.last();
        let rest = accessible(materials.drop_last());
        if m.agent_access {
            rest.push((m.id@, m.kind, m.version@))
        } else {
            rest
        }
    }
}

pub open spec fn evidence_view(items: Seq<EvidenceItem>) -> Seq<ItemView> {
    items.map_values(|e: EvidenceItem| (e.id@, e.kind, e.version@))
}

/// The bytes whose digest is the context revision: the contract version big
/// endian, the project id, a zero byte, the project version, then for each
/// item a zero byte, its id, a zero byte and its version.
pub open spec fn revision_input(
    contract_version: u16,
    project_id: Seq<char>,
    project_version: Seq<char>,
    items: Seq<ItemView>,
) -> Seq<u8> {
    seq![(contract_version / 256) as u8, (contract_version % 256) as u8] + encode_utf8(project_id)
        + seq![0u8] + encode_utf8(project_version) + items_input(items)
}

pub open spec fn items_input(items: Seq<ItemView>) -> Seq<u8>
    decreases items.len(),
{
    if items.len() == 0 {
        Seq::empty()
    } else {
        items_input(items.drop_last()) + seq![0u8] + encode_utf8(items.last().0) + seq![0u8]
            + encode_utf8(items.last().2)
    }
}

/// The context revision: lowercase hexadecimal SHA-256 of `revision_input`.
pub open spec fn spec_revision(
    contract_version: u16,
    project_id: Seq<char>,
    project_version: Seq<char>,
    items: Seq<ItemView>,
) -> Seq<char> {
    hex_lower(sha256(revision_input(contract_version, project_id, project_version, items)))
}

impl ProjectContextSnapshot {
    pub open spec fn view_items(&self) -> Seq<ItemView> {
        items_view(self.items@)
    }

    /// Items are ordered by id, each id once.
    pub open spec fn wf(&self) -> bool {
        strictly_sorted(item_ids(self.view_items()))
    }
}

pub(crate) proof fn lemma_sorted_ids_distinct(s: Seq<ItemView>, i: int, j: int)
    requires
        strictly_sorted(item_ids(s)),
        0 <= i < s.len(),
        0 <= j < s.len(),
        i != j,
    ensures
        s[i].0 != s[j].0,
{
    if i < j {
        assert(seq_less(item_ids(s)[i], item_ids(s)[j]));
    } else {
        assert(seq_less(item_ids(s)[j], item_ids(s)[i]));
    }
    lemma_seq_less_irreflexive(s[i].0);
}

fn clone_item(e: &(String, ContextItemVersion)) -> (r: (String, ContextItemVersion))
    ensures
        item_view(r) == item_view(*e),
{
    (e.0.clone(), ContextItemVersion { kind: e.1.kind, version: e.1.version.clone() })
}

/// Writes `(id, kind, version)` into the id-ordered `items`, replacing the
/// entry of the same id.
pub(crate) fn upsert_item(
    items: &mut Vec<(String, ContextItemVersion)>,
    id: String,
    kind: ProjectWorkspaceItemKind,
    version: String,
)
    requires
        strictly_sorted(item_ids(items_view(old(items)@))),
    ensures
        strictly_sorted(item_ids(items_view(final(items)@))),
        forall|k: Seq<char>|
            has_id(items_view(final(items)@), k) <==> (has_id(items_view(old(items)@), k) || k
                == id@),
        forall|i: int|
            0 <= i < final(items)@.len() ==> {
                let e = #[trigger] items_view(final(items)@)[i];
                if e.0 == id@ {
                    e == (id@, kind, version@)
                } else {
                    exists|m: int|
                        0 <= m < old(items)@.len() && #[trigger] items_view(old(items)@)[m] == e
                }
            },
{
    let ghost s = items_view(items@);
    let xc = chars_of(id.as_str());
    let mut p: usize = 0;
    while p < items.len() && chars_less(&chars_of(items[p].0.as_str()), &xc)
        invariant
            p <= items@.len(),
            s == items_view(items@),
            xc@ == id@,
            forall|i: int| 0 <= i < p ==> seq_less(#[trigger] s[i].0, id@),
        decreases items.len() - p,
    {
        p = p + 1;
    }
    let entry = (id, ContextItemVersion { kind, version });
    let ghost x = item_view(entry);
    if p < items.len() && chars_eq(&chars_of(items[p].0.as_str()), &xc) {
        items.set(p, entry);
        proof {
            let t = items_view(items@);
            assert(t == s.update(p as int, x));
            assert(item_ids(t) == item_ids(s));
            assert forall|k: Seq<char>| has_id(t, k) <==> (has_id(s, k) || k == x.0) by {
                if has_id(t, k) {
                    let i = choose|i: int| 0 <= i < t.len() && #[trigger] t[i].0 == k;
                    if i != p {
                        assert(s[i].0 == k);
                    }
                }
                if has_id(s, k) {
                    let i = choose|i: int| 0 <= i < s.len() && #[trigger] s[i].0 == k;
                    assert(t[i].0 == k);
                }
                if k == x.0 {
                    assert(t[p as int].0 == k);
                }
            }
            assert forall|i: int| 0 <= i < t.len() && t[i].0 != x.0 implies exists|m: int|
                0 <= m < s.len() && #[trigger] s[m] == t[i] by {
                assert(s[i] == t[i]);
            }
            assert forall|i: int| 0 <= i < t.len() && t[i].0 == x.0 implies t[i] == x by {
                if i != p {
                    lemma_sorted_ids_distinct(s, i, p as int);
                }
            }
        }
        return;
    }
    proof {
        if p < s.len() {
            lemma_seq_less_total(s[p as int].0, x.0);
            assert(seq_less(x.0, s[p as int].0));
            assert forall|j: int| p <= j < s.len() implies seq_less(x.0, #[trigger] s[j].0) by {
                if j > p {
                    assert(seq_less(item_ids(s)[p as int], item_ids(s)[j]));
                    lemma_seq_less_transitive(x.0, s[p as int].0, s[j].0);
                }
            }
        }
    }
    items.insert(p, entry);
    proof {
        let t = items_view(items@);
        assert(t == s.insert(p as int, x));
        assert forall|i: int, j: int| 0 <= i < j < t.len() implies seq_less(
            #[trigger] item_ids(t)[i],
            #[trigger] item_ids(t)[j],
        ) by {
            if j < p {
                assert(seq_less(item_ids(s)[i], item_ids(s)[j]));
            } else if j == p {
            } else if i < p {
                lemma_seq_less_transitive(s[i].0, x.0, s[j - 1].0);
            } else if i == p {
            } else {
                assert(seq_less(item_ids(s)[i - 1], item_ids(s)[j - 1]));
            }
        }
        assert forall|k: Seq<char>| has_id(t, k) <==> (has_id(s, k) || k == x.0) by {
            if has_id(t, k) {
                let i = choose|i: int| 0 <= i < t.len() && #[trigger] t[i].0 == k;
                if i < p {
                    assert(s[i].0 == k);
                } else if i > p {
                    assert(s[i - 1].0 == k);
                }
            }
            if has_id(s, k) {
                let i = choose|i: int| 0 <= i < s.len() && #[trigger] s[i].0 == k;
                if i < p {
                    assert(t[i].0 == k);
                } else {
                    assert(t[i + 1].0 == k);
                }
            }
            if k == x.0 {
                assert(t[p as int].0 == k);
            }
        }
        assert forall|i: int| 0 <= i < t.len() && t[i].0 != x.0 implies exists|m: int|
            0 <= m < s.len() && #[trigger] s[m] == t[i] by {
            if i < p {
                assert(s[i] == t[i]);
            } else {
                assert(s[i - 1] == t[i]);
            }
        }
        assert forall|i: int| 0 <= i < t.len() && t[i].0 == x.0 implies t[i] == x by {
            lemma_seq_less_irreflexive(x.0);
            if i < p {
                assert(seq_less(s[i].0, x.0));
            } else if i > p {
                assert(seq_less(x.0, s[i - 1].0));
            }
        }
    }
}

/// Collects `entries` into id order, the last entry of an id winning, as a
/// map keyed by id does.
fn collect_items(entries: &Vec<(String, ContextItemVersion)>) -> (r: Vec<(String, ContextItemVersion)>)
    ensures
        keeps_last(items_view(entries@), items_view(r@)),
{
    let ghost es = items_view(entries@);
    let mut r: Vec<(String, ContextItemVersion)> = Vec::new();
    let mut n: usize = 0;
    while n < entries.len()
        invariant
            n <= entries@.len(),
            es == items_view(entries@),
            keeps_last(es.take(n as int), items_view(r@)),
        decreases entries.len() - n,
    {
        let ghost before = items_view(r@);
        let ghost pre = es.take(n as int);
        let ghost post = es.take(n + 1);
        let e = clone_item(&entries[n]);
        let ghost x = item_view(e);
        assert(x == es[n as int]);
        upsert_item(&mut r, e.0, e.1.kind, e.1.version);
        proof {
            let t = items_view(r@);
            assert(post == pre.push(x));
            assert forall|k: Seq<char>| has_id(t, k) <==> has_id(post, k) by {
                if has_id(pre, k) {
                    let j = choose|j: int| 0 <= j < pre.len() && #[trigger] pre[j].0 == k;
                    assert(post[j].0 == k);
                }
                if has_id(post, k) {
                    let j = choose|j: int| 0 <= j < post.len() && #[trigger] post[j].0 == k;
                    if j < n {
                        assert(pre[j].0 == k);
                    }
                }
                if k == x.0 {
                    assert(post[n as int].0 == k);
                }
            }
            assert forall|i: int| 0 <= i < t.len() implies written_last(post, #[trigger] t[i]) by {
                if t[i].0 == x.0 {
                    assert(post[n as int] == t[i]);
                    assert(last_of_id(post, n as int));
                } else {
                    let m = choose|m: int| 0 <= m < before.len() && #[trigger] before[m] == t[i];
                    assert(written_last(pre, before[m]));
                    let j = choose|j: int|
                        0 <= j < pre.len() && pre[j] == before[m] && last_of_id(pre, j);
                    assert(post[j] == t[i]);
                    assert forall|k: int| j < k < post.len() implies (#[trigger] post[k]).0
                        != post[j].0 by {
                        if k < n {
                            assert(post[k] == pre[k]);
                        }
                    }
                    assert(last_of_id(post, j));
                }
            }
            assert(strictly_sorted(item_ids(t)));
            assert(forall|id: Seq<char>| has_id(t, id) <==> has_id(post, id));
            assert(keeps_last(post, t));
        }
        n = n + 1;
    }
    assert(es.take(entries@.len() as int) == es);
    r
}

/// The bytes of `revision_input` for these fields.
fn revision_bytes(
    contract_version: u16,
    project_id: &str,
    project_version: &str,
    items: &Vec<(String, ContextItemVersion)>,
) -> (r: Vec<u8>)
    ensures
        r@ == revision_input(contract_version, project_id@, project_version@, items_view(items@)),
{
    let mut bytes: Vec<u8> = Vec::new();
    bytes.push((contract_version / 256) as u8);
    bytes.push((contract_version % 256) as u8);
    push_utf8(&mut bytes, project_id);
    bytes.push(0u8);
    push_utf8(&mut bytes, project_version);
    let ghost head = bytes@;
    let ghost s = items_view(items@);
    assert(head == seq![(contract_version / 256) as u8, (contract_version % 256) as u8]
        + encode_utf8(project_id@) + seq![0u8] + encode_utf8(project_version@));
    let mut i: usize = 0;
    assert(s.take(0) =~= Seq::<ItemView>::empty());
    while i < items.len()
        invariant
            i <= items@.len(),
            s == items_view(items@),
            bytes@ == head + items_input(s.take(i as int)),
        decreases items.len() - i,
    {
        bytes.push(0u8);
        push_utf8(&mut bytes, items[i].0.as_str());
        bytes.push(0u8);
        push_utf8(&mut bytes, items[i].1.version.as_str());
        assert(s.take(i + 1).drop_last() == s.take(i as int));
        assert(s.take(i + 1).last() == s[i as int]);
        i = i + 1;
    }
    assert(s.take(items@.len() as int) == s);
    bytes
}

impl ProjectContextSnapshot {
    /// The snapshot of the materials that the agent may receive, for a project
    /// at `project_version`.
    pub fn new(
        project_id: &str,
        project_version: &str,
        materials: &Vec<MaterialVersion>,
        contract_version: u16,
    ) -> (r: Self)
        ensures
            r.wf(),
            keeps_last(accessible(materials@), r.view_items()),
            r.project_version@ == project_version@,
            r.revision@.len() == 64,
            r.revision@ == spec_revision(
                contract_version,
                project_id@,
                project_version@,
                r.view_items(),
            ),
    {
        let mut entries: Vec<(String, ContextItemVersion)> = Vec::new();
        let mut i: usize = 0;
        while i < materials.len()
            invariant
                i <= materials@.len(),
                items_view(entries@) == accessible(materials@.take(i as int)),
            decreases materials.len() - i,
        {
            assert(materials@.take(i + 1).drop_last() == materials@.take(i as int));
            let m = &materials[i];
            if m.agent_access {
                let ghost before = entries@;
                entries.push(
                    (m.id.clone(), ContextItemVersion { kind: m.kind, version: m.version.clone() }),
                );
                assert(items_view(entries@) == items_view(before).push((m.id@, m.kind, m.version@)));
            }
            i = i + 1;
        }
        assert(materials@.take(materials@.len() as int) == materials@);
        Self::from_versions(project_id, project_version, &entries, contract_version)
    }

    /// The snapshot recorded in a work packet's evidence.
    pub fn from_evidence(
        project_id: &str,
        project_version: &str,
        items: &Vec<EvidenceItem>,
        contract_version: u16,
    ) -> (r: Self)
        ensures
            r.wf(),
            keeps_last(evidence_view(items@), r.view_items()),
            r.project_version@ == project_version@,
            r.revision@.len() == 64,
            r.revision@ == spec_revision(
                contract_version,
                project_id@,
                project_version@,
                r.view_items(),
            ),
    {
        let mut entries: Vec<(String, ContextItemVersion)> = Vec::new();
        let mut i: usize = 0;
        while i < items.len()
            invariant
                i <= items@.len(),
                items_view(entries@) == evidence_view(items@).take(i as int),
            decreases items.len() - i,
        {
            let e = &items[i];
            let ghost before = entries@;
            entries.push((e.id.clone(), ContextItemVersion { kind: e.kind, version: e.version.clone() }));
            assert(items_view(entries@) == items_view(before).push((e.id@, e.kind, e.version@)));
            assert(evidence_view(items@).take(i + 1) == evidence_view(items@).take(i as int).push(
                (e.id@, e.kind, e.version@),
            ));
            i = i + 1;
        }
        assert(evidence_view(items@).take(items@.len() as int) == evidence_view(items@));
        Self::from_versions(project_id, project_version, &entries, contract_version)
    }

    fn from_versions(
        project_id: &str,
        project_version: &str,
        entries: &Vec<(String, ContextItemVersion)>,
        contract_version: u16,
    ) -> (r: Self)
        ensures
            r.wf(),
            keeps_last(items_view(entries@), r.view_items()),
            r.project_version@ == project_version@,
            r.revision@.len() == 64,
            r.revision@ == spec_revision(
                contract_version,
                project_id@,
                project_version@,
                r.view_items(),
            ),
    {
        let items = collect_items(entries);
        let mut snapshot = ProjectContextSnapshot {
            revision: String::new(),
            project_version: project_version.to_string(),
            items,
        };
        snapshot.refresh_revision(project_id, contract_version);
        snapshot
    }

    /// Recomputes the revision from the project id, the project version and
    /// the item versions in id order.
    pub fn refresh_revision(&mut self, project_id: &str, contract_version: u16)
        ensures
            final(self).revision@ == spec_revision(
                contract_version,
                project_id@,
                old(self).project_version@,
                old(self).view_items(),
            ),
            final(self).revision@.len() == 64,
            final(self).project_version == old(self).project_version,
            final(self).items == old(self).items,
    {
        let bytes = revision_bytes(
            contract_version,
            project_id,
            self.project_version.as_str(),
            &self.items,
        );
        self.revision = sha256_hex(&bytes);
    }
}

/// How a material changed between two snapshots.
#[derive(PartialEq, Eq, Structural, Clone, Copy, Debug)]
pub enum ContextChangeKind {
    Added,
    Updated,
    /// Deleted, or no longer given to the agent: the two are not told apart.
    Removed,
}

impl ContextChangeKind {
    pub fn as_str(&self) -> (r: &'static str)
        ensures
            r@ == change_name(*self),
    {
        match self {
            ContextChangeKind::Added => "added",
            ContextChangeKind::Updated => "updated",
            ContextChangeKind::Removed => "removed",
        }
    }
}

pub open spec fn change_name(k: ContextChangeKind) -> Seq<char> {
    match k {
        ContextChangeKind::Added => "added"@,
        ContextChangeKind::Updated => "updated"@,
        ContextChangeKind::Removed => "removed"@,
    }
}

/// One material that differs between a snapshot and an earlier one.
pub struct ProjectContextChange {
    pub id: String,
    pub kind: ProjectWorkspaceItemKind,
    pub change: ContextChangeKind,
    pub previous_version: Option<String>,
    pub current_version: Option<String>,
}

/// Id, kind, change, previous and current version of a change.
pub type ChangeView = (
    Seq<char>,
    ProjectWorkspaceItemKind,
    ContextChangeKind,
    Option<Seq<char>>,
    Option<Seq<char>>,
);

pub open spec fn opt_view(o: Option<String>) -> Option<Seq<char>> {
    match o {
        Some(s) => Some(s@),
        None => None,
    }
}

pub open spec fn change_view(c: ProjectContextChange) -> ChangeView {
    (c.id@, c.kind, c.change, opt_view(c.previous_version), opt_view(c.current_version))
}

pub open spec fn changes_view(s: Seq<ProjectContextChange>) -> Seq<ChangeView> {
    s.map_values(|c: ProjectContextChange| change_view(c))
}

pub open spec fn change_ids(s: Seq<ChangeView>) -> Seq<Seq<char>> {
    s.map_values(|c: ChangeView| c.0)
}

pub open spec fn has_change(s: Seq<ChangeView>, id: Seq<char>) -> bool {
    exists|t: int| 0 <= t < s.len() && #[trigger] s[t].0 == id
}

/// Whether `prev` holds `id` at `version`.
pub open spec fn version_seen(prev: Seq<ItemView>, id: Seq<char>, version: Seq<char>) -> bool {
    exists|m: int| 0 <= m < prev.len() && #[trigger] prev[m].0 == id && prev[m].2 == version
}

/// Whether `c` is what the current item `a` has become since `prev`.
pub open spec fn change_of_current(c: ChangeView, a: ItemView, prev: Seq<ItemView>) -> bool {
    &&& c.0 == a.0
    &&& c.1 == a.1
    &&& c.4 == Some(a.2)
    &&& if has_id(prev, a.0) {
        c.2 == ContextChangeKind::Updated && exists|m: int|
            0 <= m < prev.len() && #[trigger] prev[m].0 == a.0 && prev[m].2 != a.2 && c.3 == Some(
                prev[m].2,
            )
    } else {
        c.2 == ContextChangeKind::Added && c.3 == None::<Seq<char>>
    }
}

/// Whether `c` reports the removal of the earlier item `b`.
pub open spec fn change_of_removed(c: ChangeView, b: ItemView, cur: Seq<ItemView>) -> bool {
    &&& !has_id(cur, b.0)
    &&& c == (b.0, b.1, ContextChangeKind::Removed, Some(b.2), None::<Seq<char>>)
}

/// Whether `c` is a change between `prev` and `cur` that the data justify.
pub open spec fn justified(c: ChangeView, cur: Seq<ItemView>, prev: Seq<ItemView>) -> bool {
    ||| exists|i: int| 0 <= i < cur.len() && change_of_current(c, #[trigger] cur[i], prev)
    ||| exists|m: int| 0 <= m < prev.len() && change_of_removed(c, #[trigger] prev[m], cur)
}

/// Whether `r` lists, in id order, exactly the changes from `prev` to `cur`:
/// the items added, those whose version changed, and those removed.
pub open spec fn spec_changes(cur: Seq<ItemView>, prev: Seq<ItemView>, r: Seq<ChangeView>) -> bool {
    &&& strictly_sorted(change_ids(r))
    &&& forall|t: int| 0 <= t < r.len() ==> justified(#[trigger] r[t], cur, prev)
    &&& forall|i: int|
        0 <= i < cur.len() && !version_seen(prev, (#[trigger] cur[i]).0, cur[i].2) ==> has_change(
            r,
            cur[i].0,
        )
    &&& forall|m: int| 0 <= m < prev.len() && !has_id(cur, (#[trigger] prev[m]).0) ==> has_change(r, prev[m].0)
}

/// The index of the item of `items` with id `id`, if any.
pub(crate) fn find_item(items: &Vec<(String, ContextItemVersion)>, id: &String) -> (r: Option<usize>)
    ensures
        match r {
            Some(m) => m < items@.len() && items_view(items@)[m as int].0 == id@,
            None => !has_id(items_view(items@), id@),
        },
{
    let ghost s = items_view(items@);
    let mut m: usize = 0;
    while m < items.len()
        invariant
            m <= items@.len(),
            s == items_view(items@),
            forall|k: int| 0 <= k < m ==> (#[trigger] s[k]).0 != id@,
        decreases items.len() - m,
    {
        if items[m].0 == *id {
            return Some(m);
        }
        m = m + 1;
    }
    None
}

fn clone_opt(o: &Option<String>) -> (r: Option<String>)
    ensures
        opt_view(r) == opt_view(*o),
{
    match o {
        Some(s) => Some(s.clone()),
        None => None,
    }
}

/// Inserts the change `c`, whose id is not there yet, into the id-ordered `out`.
fn insert_change(out: &mut Vec<ProjectContextChange>, c: ProjectContextChange)
    requires
        strictly_sorted(change_ids(changes_view(old(out)@))),
        !has_change(changes_view(old(out)@), c.id@),
    ensures
        strictly_sorted(change_ids(changes_view(final(out)@))),
        forall|k: Seq<char>|
            has_change(changes_view(final(out)@), k) <==> (has_change(changes_view(old(out)@), k)
                || k == c.id@),
        forall|t: int|
            0 <= t < final(out)@.len() ==> (#[trigger] changes_view(final(out)@)[t] == change_view(c)
                || exists|u: int|
                0 <= u < old(out)@.len() && changes_view(old(out)@)[u] == changes_view(
                    final(out)@,
                )[t]),
{
    let ghost s = changes_view(out@);
    let ghost x = change_view(c);
    let xc = chars_of(c.id.as_str());
    let mut p: usize = 0;
    while p < out.len() && chars_less(&chars_of(out[p].id.as_str()), &xc)
        invariant
            p <= out@.len(),
            s == changes_view(out@),
            xc@ == x.0,
            forall|i: int| 0 <= i < p ==> seq_less(#[trigger] s[i].0, x.0),
        decreases out.len() - p,
    {
        p = p + 1;
    }
    proof {
        if p < s.len() {
            assert(s[p as int].0 != x.0);
            lemma_seq_less_total(s[p as int].0, x.0);
            assert(seq_less(x.0, s[p as int].0));
            assert forall|j: int| p <= j < s.len() implies seq_less(x.0, #[trigger] s[j].0) by {
                if j > p {
                    assert(seq_less(change_ids(s)[p as int], change_ids(s)[j]));
                    lemma_seq_less_transitive(x.0, s[p as int].0, s[j].0);
                }
            }
        }
    }
    out.insert(p, c);
    proof {
        let t = changes_view(out@);
        assert(t == s.insert(p as int, x));
        assert forall|i: int, j: int| 0 <= i < j < t.len() implies seq_less(
            #[trigger] change_ids(t)[i],
            #[trigger] change_ids(t)[j],
        ) by {
            if j < p {
                assert(seq_less(change_ids(s)[i], change_ids(s)[j]));
            } else if j == p {
            } else if i < p {
                lemma_seq_less_transitive(s[i].0, x.0, s[j - 1].0);
            } else if i == p {
            } else {
                assert(seq_less(change_ids(s)[i - 1], change_ids(s)[j - 1]));
            }
        }
        assert forall|k: Seq<char>| has_change(t, k) <==> (has_change(s, k) || k == x.0) by {
            if has_change(t, k) {
                let i = choose|i: int| 0 <= i < t.len() && #[trigger] t[i].0 == k;
                if i < p {
                    assert(s[i].0 == k);
                } else if i > p {
                    assert(s[i - 1].0 == k);
                }
            }
            if has_change(s, k) {
                let i = choose|i: int| 0 <= i < s.len() && #[trigger] s[i].0 == k;
                if i < p {
                    assert(t[i].0 == k);
                } else {
                    assert(t[i + 1].0 == k);
                }
            }
            if k == x.0 {
                assert(t[p as int].0 == k);
            }
        }
        assert forall|i: int| 0 <= i < t.len() implies (#[trigger] t[i] == x || exists|u: int|
            0 <= u < s.len() && s[u] == t[i]) by {
            if i < p {
                assert(s[i] == t[i]);
            } else if i > p {
                assert(s[i - 1] == t[i]);
            }
        }
    }
}

impl ProjectContextSnapshot {
    /// The materials added, updated or removed since `previous`, in id order.
    pub fn changes_since(&self, previous: &Self) -> (r: Vec<ProjectContextChange>)
        requires
            self.wf(),
            previous.wf(),
        ensures
            spec_changes(self.view_items(), previous.view_items(), changes_view(r@)),
    {
        let ghost cur = self.view_items();
        let ghost prev = previous.view_items();
        let mut out: Vec<ProjectContextChange> = Vec::new();
        let mut i: usize = 0;
        while i < self.items.len()
            invariant
                i <= cur.len(),
                cur == self.view_items(),
                prev == previous.view_items(),
                self.wf(),
                previous.wf(),
                strictly_sorted(change_ids(changes_view(out@))),
                forall|t: int|
                    0 <= t < out@.len() ==> justified(#[trigger] changes_view(out@)[t], cur, prev),
                forall|t: int|
                    0 <= t < out@.len() ==> exists|k: int|
                        0 <= k < i && cur[k].0 == (#[trigger] changes_view(out@)[t]).0,
                forall|k: int|
                    0 <= k < i && !version_seen(prev, (#[trigger] cur[k]).0, cur[k].2)
                        ==> has_change(changes_view(out@), cur[k].0),
            decreases self.items.len() - i,
        {
            let ghost before = changes_view(out@);
            let ghost a = cur[i as int];
            let id = &self.items[i].0;
            let kind = self.items[i].1.kind;
            let found = find_item(&previous.items, id);
            let mut pushed = false;
            match found {
                Some(m) => {
                    if previous.items[m].1.version != self.items[i].1.version {
                        let c = ProjectContextChange {
                            id: id.clone(),
                            kind,
                            change: ContextChangeKind::Updated,
                            previous_version: Some(previous.items[m].1.version.clone()),
                            current_version: Some(self.items[i].1.version.clone()),
                        };
                        proof {
                            assert(change_of_current(change_view(c), cur[i as int], prev));
                        }
                        out.push(c);
                        pushed = true;
                    } else {
                        assert(version_seen(prev, a.0, a.2));
                    }
                },
                None => {
                    let c = ProjectContextChange {
                        id: id.clone(),
                        kind,
                        change: ContextChangeKind::Added,
                        previous_version: None,
                        current_version: Some(self.items[i].1.version.clone()),
                    };
                    proof {
                        assert(change_of_current(change_view(c), cur[i as int], prev));
                    }
                    out.push(c);
                    pushed = true;
                },
            }
            proof {
                let t = changes_view(out@);
                if pushed {
                    assert(t == before.push(t[before.len() as int]));
                    assert(t[before.len() as int].0 == a.0);
                    assert forall|u: int| 0 <= u < before.len() implies seq_less(
                        #[trigger] before[u].0,
                        a.0,
                    ) by {
                        let k = choose|k: int| 0 <= k < i && cur[k].0 == before[u].0;
                        assert(seq_less(item_ids(cur)[k], item_ids(cur)[i as int]));
                    }
                    assert forall|u: int, v: int| 0 <= u < v < t.len() implies seq_less(
                        #[trigger] change_ids(t)[u],
                        #[trigger] change_ids(t)[v],
                    ) by {
                        if v < before.len() {
                            assert(seq_less(change_ids(before)[u], change_ids(before)[v]));
                        }
                    }
                    assert(t[before.len() as int].0 == cur[i as int].0);
                    assert forall|u: int| 0 <= u < t.len() implies exists|k: int|
                        0 <= k < i + 1 && cur[k].0 == (#[trigger] t[u]).0 by {
                        if u < before.len() {
                            let k = choose|k: int| 0 <= k < i && cur[k].0 == before[u].0;
                            assert(cur[k].0 == t[u].0);
                        } else {
                            assert(cur[i as int].0 == t[u].0);
                        }
                    }
                    assert forall|k: Seq<char>| has_change(before, k) implies has_change(t, k) by {
                        let u = choose|u: int| 0 <= u < before.len() && #[trigger] before[u].0 == k;
                        assert(t[u].0 == k);
                    }
                    assert(has_change(t, a.0));
                } else {
                    assert(t == before);
                }
            }
            i = i + 1;
        }
        let mut m: usize = 0;
        while m < previous.items.len()
            invariant
                m <= prev.len(),
                cur == self.view_items(),
                prev == previous.view_items(),
                self.wf(),
                previous.wf(),
                strictly_sorted(change_ids(changes_view(out@))),
                forall|t: int|
                    0 <= t < out@.len() ==> justified(#[trigger] changes_view(out@)[t], cur, prev),
                forall|t: int|
                    0 <= t < out@.len() ==> has_id(cur, (#[trigger] changes_view(out@)[t]).0)
                        || exists|k: int| 0 <= k < m && prev[k].0 == changes_view(out@)[t].0,
                forall|k: int|
                    0 <= k < cur.len() && !version_seen(prev, (#[trigger] cur[k]).0, cur[k].2)
                        ==> has_change(changes_view(out@), cur[k].0),
                forall|k: int|
                    0 <= k < m && !has_id(cur, (#[trigger] prev[k]).0) ==> has_change(
                        changes_view(out@),
                        prev[k].0,
                    ),
            decreases previous.items.len() - m,
        {
            let ghost before = changes_view(out@);
            let ghost b = prev[m as int];
            let id = &previous.items[m].0;
            if find_item(&self.items, id).is_none() {
                let c = ProjectContextChange {
                    id: id.clone(),
                    kind: previous.items[m].1.kind,
                    change: ContextChangeKind::Removed,
                    previous_version: Some(previous.items[m].1.version.clone()),
                    current_version: None,
                };
                proof {
                    assert(change_of_removed(change_view(c), prev[m as int], cur));
                    if has_change(before, b.0) {
                        let u = choose|u: int| 0 <= u < before.len() && #[trigger] before[u].0 == b.0;
                        if !has_id(cur, before[u].0) {
                            let k = choose|k: int| 0 <= k < m && prev[k].0 == before[u].0;
                            lemma_sorted_ids_distinct(prev, k, m as int);
                        }
                    }
                }
                insert_change(&mut out, c);
                proof {
                    let t = changes_view(out@);
                    assert forall|u: int| 0 <= u < t.len() implies justified(#[trigger] t[u], cur, prev) by {
                        if t[u] != change_view(c) {
                            let w = choose|w: int| 0 <= w < before.len() && before[w] == t[u];
                        }
                    }
                    assert forall|u: int| 0 <= u < t.len() implies has_id(cur, (#[trigger] t[u]).0)
                        || exists|k: int| 0 <= k < m + 1 && prev[k].0 == t[u].0 by {
                        if t[u] != change_view(c) {
                            let w = choose|w: int| 0 <= w < before.len() && before[w] == t[u];
                            if !has_id(cur, before[w].0) {
                                let k = choose|k: int| 0 <= k < m && prev[k].0 == before[w].0;
                                assert(prev[k].0 == t[u].0);
                            }
                        } else {
                            assert(prev[m as int].0 == t[u].0);
                        }
                    }
                }
            }
            m = m + 1;
        }
        out
    }
}

/// Whether the current item `a` is a rule that the session still has to
/// read: listed as pending, or not seen at this version before.
pub open spec fn rule_pending(a: ItemView, prev: Seq<ItemView>, pending: Seq<Seq<char>>) -> bool {
    a.1 == ProjectWorkspaceItemKind::Rule && (pending.contains(a.0) || !version_seen(prev, a.0, a.2))
}

/// The ids of the pending rules of `cur`, in its order.
pub open spec fn spec_pending_rules(
    cur: Seq<ItemView>,
    prev: Seq<ItemView>,
    pending: Seq<Seq<char>>,
) -> Seq<Seq<char>>
    decreases cur.len(),
{
    if cur.len() == 0 {
        Seq::empty()
    } else {
        let rest = spec_pending_rules(cur.drop_last(), prev, pending);
        if rule_pending(cur.last(), prev, pending) {
            rest.push(cur.last().0)
        } else {
            rest
        }
    }
}

/// Whether some string of `v` equals `x`.
pub(crate) fn contains_string(v: &Vec<String>, x: &String) -> (r: bool)
    ensures
        r == crate::order::str_views(v@).contains(x@),
{
    let mut i: usize = 0;
    while i < v.len()
        invariant
            i <= v@.len(),
            forall|k: int| 0 <= k < i ==> v@[k]@ != x@,
        decreases v.len() - i,
    {
        if v[i] == *x {
            assert(crate::order::str_views(v@)[i as int] == x@);
            return true;
        }
        i = i + 1;
    }
    assert forall|k: int| 0 <= k < v@.len() implies crate::order::str_views(v@)[k] != x@ by {
        assert(crate::order::str_views(v@)[k] == v@[k]@);
    }
    false
}

/// Whether `items` holds `id` at `version`.
pub(crate) fn holds_version(items: &Vec<(String, ContextItemVersion)>, id: &String, version: &String) -> (r: bool)
    ensures
        r == version_seen(items_view(items@), id@, version@),
{
    let ghost s = items_view(items@);
    let mut m: usize = 0;
    while m < items.len()
        invariant
            m <= items@.len(),
            s == items_view(items@),
            forall|k: int| 0 <= k < m ==> !((#[trigger] s[k]).0 == id@ && s[k].2 == version@),
        decreases items.len() - m,
    {
        if items[m].0 == *id && items[m].1.version == *version {
            assert(s[m as int].0 == id@ && s[m as int].2 == version@);
            return true;
        }
        m = m + 1;
    }
    false
}

impl ProjectContextSnapshot {
    /// The rules that the session has not read at their current version:
    /// those still pending, and those added or changed since `previous`.
    pub fn pending_rules(&self, previous: &Self, pending: &Vec<String>) -> (r: Vec<String>)
        ensures
            crate::order::str_views(r@) == spec_pending_rules(
                self.view_items(),
                previous.view_items(),
                crate::order::str_views(pending@),
            ),
    {
        let ghost cur = self.view_items();
        let ghost prev = previous.view_items();
        let ghost pend = crate::order::str_views(pending@);
        let mut out: Vec<String> = Vec::new();
        let mut i: usize = 0;
        while i < self.items.len()
            invariant
                i <= cur.len(),
                cur == self.view_items(),
                prev == previous.view_items(),
                pend == crate::order::str_views(pending@),
                crate::order::str_views(out@) == spec_pending_rules(cur.take(i as int), prev, pend),
            decreases self.items.len() - i,
        {
            assert(cur.take(i + 1).drop_last() == cur.take(i as int));
            assert(cur.take(i + 1).last() == cur[i as int]);
            let id = &self.items[i].0;
            if self.items[i].1.kind == ProjectWorkspaceItemKind::Rule && (contains_string(pending, id)
                || !holds_version(&previous.items, id, &self.items[i].1.version)) {
                let ghost before = out@;
                out.push(id.clone());
                assert(crate::order::str_views(out@) == crate::order::str_views(before).push(id@));
            }
            i = i + 1;
        }
        assert(cur.take(cur.len() as int) == cur);
        out
    }
}

/// A snapshot compared with itself shows no change.
pub proof fn lemma_no_changes_since_itself(snapshot: ProjectContextSnapshot, r: Seq<ChangeView>)
    requires
        snapshot.wf(),
        spec_changes(snapshot.view_items(), snapshot.view_items(), r),
    ensures
        r.len() == 0,
{
    let v = snapshot.view_items();
    if r.len() > 0 {
        let c = r[0];
        assert(justified(c, v, v));
        if exists|i: int| 0 <= i < v.len() && change_of_current(c, #[trigger] v[i], v) {
            let i = choose|i: int| 0 <= i < v.len() && change_of_current(c, #[trigger] v[i], v);
            assert(v[i].0 == v[i].0);
            assert(has_id(v, v[i].0));
            let m = choose|m: int|
                0 <= m < v.len() && #[trigger] v[m].0 == v[i].0 && v[m].2 != v[i].2 && c.3 == Some(
                    v[m].2,
                );
            if m != i {
                lemma_sorted_ids_distinct(v, m, i);
            }
        } else {
            let m = choose|m: int| 0 <= m < v.len() && change_of_removed(c, #[trigger] v[m], v);
            assert(v[m].0 == v[m].0);
        }
    }
}

/// The revision reads only the ids and versions of the items: two snapshots
/// of one project version whose items have the same ids and versions in the
/// same order get the same revision, whatever the kinds of their items.
pub proof fn lemma_revision_ignores_kinds(
    a: ProjectContextSnapshot,
    b: ProjectContextSnapshot,
    project_id: Seq<char>,
    contract_version: u16,
)
    requires
        a.project_version@ == b.project_version@,
        a.view_items().len() == b.view_items().len(),
        forall|i: int|
            0 <= i < a.view_items().len() ==> (#[trigger] a.view_items()[i]).0 == b.view_items()[i].0
                && a.view_items()[i].2 == b.view_items()[i].2,
    ensures
        spec_revision(contract_version, project_id, a.project_version@, a.view_items()) == spec_revision(
            contract_version,
            project_id,
            b.project_version@,
            b.view_items(),
        ),
{
    lemma_items_input_ids_versions(a.view_items(), b.view_items());
}

proof fn lemma_items_input_ids_versions(a: Seq<ItemView>, b: Seq<ItemView>)
    requires
        a.len() == b.len(),
        forall|i: int| 0 <= i < a.len() ==> (#[trigger] a[i]).0 == b[i].0 && a[i].2 == b[i].2,
    ensures
        items_input(a) == items_input(b),
    decreases a.len(),
{
    if a.len() > 0 {
        let n = a.len() - 1;
        assert(a[n].0 == b[n].0 && a[n].2 == b[n].2);
        lemma_items_input_ids_versions(a.drop_last(), b.drop_last());
    }
}

/// Whether `r` lists a change of `id` of kind `change` from `previous` to
/// `current`.
pub open spec fn lists_change(
    r: Seq<ChangeView>,
    id: Seq<char>,
    change: ContextChangeKind,
    previous: Option<Seq<char>>,
    current: Option<Seq<char>>,
) -> bool {
    exists|t: int|
        0 <= t < r.len() && (#[trigger] r[t]).0 == id && r[t].2 == change && r[t].3 == previous
            && r[t].4 == current
}

/// Comparing two snapshots both ways gives mirrored changes: a material
/// added in one direction is removed in the other, at the same version, and
/// an updated material is updated in both, with its previous and current
/// versions swapped.
pub proof fn lemma_changes_mirror(
    a: ProjectContextSnapshot,
    b: ProjectContextSnapshot,
    a_since_b: Seq<ChangeView>,
    b_since_a: Seq<ChangeView>,
    id: Seq<char>,
    v: Seq<char>,
    w: Seq<char>,
)
    requires
        a.wf(),
        b.wf(),
        spec_changes(a.view_items(), b.view_items(), a_since_b),
        spec_changes(b.view_items(), a.view_items(), b_since_a),
    ensures
        lists_change(a_since_b, id, ContextChangeKind::Added, None, Some(v)) <==> lists_change(
            b_since_a,
            id,
            ContextChangeKind::Removed,
            Some(v),
            None,
        ),
        lists_change(a_since_b, id, ContextChangeKind::Removed, Some(v), None) <==> lists_change(
            b_since_a,
            id,
            ContextChangeKind::Added,
            None,
            Some(v),
        ),
        lists_change(a_since_b, id, ContextChangeKind::Updated, Some(v), Some(w)) <==> lists_change(
            b_since_a,
            id,
            ContextChangeKind::Updated,
            Some(w),
            Some(v),
        ),
{
    let av = a.view_items();
    let bv = b.view_items();
    lemma_added_is_removed(av, bv, a_since_b, b_since_a, id, v);
    lemma_removed_is_added(av, bv, a_since_b, b_since_a, id, v);
    lemma_added_is_removed(bv, av, b_since_a, a_since_b, id, v);
    lemma_removed_is_added(bv, av, b_since_a, a_since_b, id, v);
    lemma_updated_swaps(av, bv, a_since_b, b_since_a, id, v, w);
    lemma_updated_swaps(bv, av, b_since_a, a_since_b, id, w, v);
}

/// The ids that `r` lists with a change of kind `change`.
pub open spec fn ids_with_change(r: Seq<ChangeView>, change: ContextChangeKind) -> Set<Seq<char>> {
    Set::new(|id: Seq<char>| exists|t: int| 0 <= t < r.len() && (#[trigger] r[t]).0 == id && r[t].2 == change)
}

/// Law of `changes_since`: a snapshot shows no change since itself; and
/// between two snapshots, the ids added one way are the ids removed the
/// other way and back, the updated ids are the same both ways, and each
/// update is listed both ways with its previous and current versions
/// swapped.
pub proof fn lemma_changes_since_laws(
    a: ProjectContextSnapshot,
    b: ProjectContextSnapshot,
    a_since_a: Seq<ChangeView>,
    a_since_b: Seq<ChangeView>,
    b_since_a: Seq<ChangeView>,
)
    requires
        a.wf(),
        b.wf(),
        spec_changes(a.view_items(), a.view_items(), a_since_a),
        spec_changes(a.view_items(), b.view_items(), a_since_b),
        spec_changes(b.view_items(), a.view_items(), b_since_a),
    ensures
        a_since_a.len() == 0,
        ids_with_change(a_since_b, ContextChangeKind::Added) == ids_with_change(b_since_a, ContextChangeKind::Removed),
        ids_with_change(a_since_b, ContextChangeKind::Removed) == ids_with_change(b_since_a, ContextChangeKind::Added),
        ids_with_change(a_since_b, ContextChangeKind::Updated) == ids_with_change(b_since_a, ContextChangeKind::Updated),
        forall|id: Seq<char>, v: Seq<char>, w: Seq<char>|
            lists_change(a_since_b, id, ContextChangeKind::Updated, Some(v), Some(w)) <==> lists_change(
                b_since_a,
                id,
                ContextChangeKind::Updated,
                Some(w),
                Some(v),
            ),
{
    lemma_no_changes_since_itself(a, a_since_a);
    let av = a.view_items();
    let bv = b.view_items();
    lemma_kind_sets_mirror(a, b, a_since_b, b_since_a, ContextChangeKind::Added, ContextChangeKind::Removed);
    lemma_kind_sets_mirror(a, b, a_since_b, b_since_a, ContextChangeKind::Removed, ContextChangeKind::Added);
    lemma_kind_sets_mirror(a, b, a_since_b, b_since_a, ContextChangeKind::Updated, ContextChangeKind::Updated);
    assert forall|id: Seq<char>, v: Seq<char>, w: Seq<char>|
        lists_change(a_since_b, id, ContextChangeKind::Updated, Some(v), Some(w)) <==> lists_change(
            b_since_a,
            id,
            ContextChangeKind::Updated,
            Some(w),
            Some(v),
        ) by {
        lemma_changes_mirror(a, b, a_since_b, b_since_a, id, v, w);
    }
}

proof fn lemma_change_shape(r: Seq<ChangeView>, cur: Seq<ItemView>, prev: Seq<ItemView>, t: int)
    requires
        spec_changes(cur, prev, r),
        0 <= t < r.len(),
    ensures
        r[t].2 == ContextChangeKind::Added ==> r[t].3 is None && r[t].4 is Some,
        r[t].2 == ContextChangeKind::Removed ==> r[t].3 is Some && r[t].4 is None,
        r[t].2 == ContextChangeKind::Updated ==> r[t].3 is Some && r[t].4 is Some,
{
    let c = r[t];
    assert(justified(c, cur, prev));
    if exists|i: int| 0 <= i < cur.len() && change_of_current(c, #[trigger] cur[i], prev) {
        let i = choose|i: int| 0 <= i < cur.len() && change_of_current(c, #[trigger] cur[i], prev);
        if has_id(prev, cur[i].0) {
            let m = choose|m: int|
                0 <= m < prev.len() && #[trigger] prev[m].0 == cur[i].0 && prev[m].2 != cur[i].2 && c.3 == Some(
                    prev[m].2,
                );
        }
    } else {
        let m = choose|m: int| 0 <= m < prev.len() && change_of_removed(c, #[trigger] prev[m], cur);
    }
}

proof fn lemma_kind_sets_mirror(
    a: ProjectContextSnapshot,
    b: ProjectContextSnapshot,
    fwd: Seq<ChangeView>,
    back: Seq<ChangeView>,
    k1: ContextChangeKind,
    k2: ContextChangeKind,
)
    requires
        a.wf(),
        b.wf(),
        spec_changes(a.view_items(), b.view_items(), fwd),
        spec_changes(b.view_items(), a.view_items(), back),
        (k1 == ContextChangeKind::Added && k2 == ContextChangeKind::Removed) || (k1
            == ContextChangeKind::Removed && k2 == ContextChangeKind::Added) || (k1
            == ContextChangeKind::Updated && k2 == ContextChangeKind::Updated),
    ensures
        ids_with_change(fwd, k1) == ids_with_change(back, k2),
{
    let av = a.view_items();
    let bv = b.view_items();
    assert forall|id: Seq<char>| ids_with_change(fwd, k1).contains(id) <==> ids_with_change(back, k2).contains(id) by {
        if ids_with_change(fwd, k1).contains(id) {
            let t = choose|t: int| 0 <= t < fwd.len() && (#[trigger] fwd[t]).0 == id && fwd[t].2 == k1;
            lemma_change_shape(fwd, av, bv, t);
            let c = fwd[t];
            let w = c.4->0;
            if k1 == ContextChangeKind::Updated {
                assert(lists_change(fwd, id, k1, Some(c.3->0), Some(w)));
                lemma_changes_mirror(a, b, fwd, back, id, c.3->0, w);
            } else if k1 == ContextChangeKind::Added {
                assert(lists_change(fwd, id, k1, None, Some(w)));
                lemma_changes_mirror(a, b, fwd, back, id, w, w);
            } else {
                assert(lists_change(fwd, id, k1, Some(c.3->0), None));
                lemma_changes_mirror(a, b, fwd, back, id, c.3->0, w);
            }
        }
        if ids_with_change(back, k2).contains(id) {
            let t = choose|t: int| 0 <= t < back.len() && (#[trigger] back[t]).0 == id && back[t].2 == k2;
            lemma_change_shape(back, bv, av, t);
            let c = back[t];
            if k2 == ContextChangeKind::Updated {
                assert(lists_change(back, id, k2, Some(c.3->0), Some(c.4->0)));
                lemma_changes_mirror(a, b, fwd, back, id, c.4->0, c.3->0);
            } else if k2 == ContextChangeKind::Removed {
                assert(lists_change(back, id, k2, Some(c.3->0), None));
                lemma_changes_mirror(a, b, fwd, back, id, c.3->0, c.3->0);
            } else {
                assert(lists_change(back, id, k2, None, Some(c.4->0)));
                lemma_changes_mirror(a, b, fwd, back, id, c.4->0, c.4->0);
            }
        }
    }
    assert(ids_with_change(fwd, k1) =~= ids_with_change(back, k2));
}

proof fn lemma_added_is_removed(
    cur: Seq<ItemView>,
    prev: Seq<ItemView>,
    fwd: Seq<ChangeView>,
    back: Seq<ChangeView>,
    id: Seq<char>,
    v: Seq<char>,
)
    requires
        strictly_sorted(item_ids(cur)),
        strictly_sorted(item_ids(prev)),
        spec_changes(cur, prev, fwd),
        spec_changes(prev, cur, back),
    ensures
        lists_change(fwd, id, ContextChangeKind::Added, None, Some(v)) ==> lists_change(
            back,
            id,
            ContextChangeKind::Removed,
            Some(v),
            None,
        ),
{
    if lists_change(fwd, id, ContextChangeKind::Added, None, Some(v)) {
        let t = choose|t: int|
            0 <= t < fwd.len() && (#[trigger] fwd[t]).0 == id && fwd[t].2 == ContextChangeKind::Added
                && fwd[t].3 == None::<Seq<char>> && fwd[t].4 == Some(v);
        let c = fwd[t];
        assert(justified(c, cur, prev));
        if exists|m: int| 0 <= m < prev.len() && change_of_removed(c, #[trigger] prev[m], cur) {
            let m = choose|m: int| 0 <= m < prev.len() && change_of_removed(c, #[trigger] prev[m], cur);
            assert(false);
        }
        let i = choose|i: int| 0 <= i < cur.len() && change_of_current(c, #[trigger] cur[i], prev);
        assert(!has_id(prev, id));
        assert(cur[i].0 == id && cur[i].2 == v);
        assert(!has_id(prev, cur[i].0));
        assert(has_change(back, cur[i].0));
        let t2 = choose|t2: int| 0 <= t2 < back.len() && #[trigger] back[t2].0 == id;
        let c2 = back[t2];
        assert(justified(c2, prev, cur));
        if exists|j: int| 0 <= j < prev.len() && change_of_current(c2, #[trigger] prev[j], cur) {
            let j = choose|j: int| 0 <= j < prev.len() && change_of_current(c2, #[trigger] prev[j], cur);
            assert(prev[j].0 == id);
            assert(false);
        }
        let m = choose|m: int| 0 <= m < cur.len() && change_of_removed(c2, #[trigger] cur[m], prev);
        if m != i {
            lemma_sorted_ids_distinct(cur, m, i);
        }
        assert(back[t2].2 == ContextChangeKind::Removed);
    }
}

proof fn lemma_removed_is_added(
    cur: Seq<ItemView>,
    prev: Seq<ItemView>,
    fwd: Seq<ChangeView>,
    back: Seq<ChangeView>,
    id: Seq<char>,
    v: Seq<char>,
)
    requires
        strictly_sorted(item_ids(cur)),
        strictly_sorted(item_ids(prev)),
        spec_changes(cur, prev, fwd),
        spec_changes(prev, cur, back),
    ensures
        lists_change(back, id, ContextChangeKind::Removed, Some(v), None) ==> lists_change(
            fwd,
            id,
            ContextChangeKind::Added,
            None,
            Some(v),
        ),
{
    if lists_change(back, id, ContextChangeKind::Removed, Some(v), None) {
        let t2 = choose|t2: int|
            0 <= t2 < back.len() && (#[trigger] back[t2]).0 == id && back[t2].2 == ContextChangeKind::Removed
                && back[t2].3 == Some(v) && back[t2].4 == None::<Seq<char>>;
        let c2 = back[t2];
        assert(justified(c2, prev, cur));
        if exists|j: int| 0 <= j < prev.len() && change_of_current(c2, #[trigger] prev[j], cur) {
            let j = choose|j: int| 0 <= j < prev.len() && change_of_current(c2, #[trigger] prev[j], cur);
            assert(false);
        }
        let m = choose|m: int| 0 <= m < cur.len() && change_of_removed(c2, #[trigger] cur[m], prev);
        assert(cur[m].0 == id && cur[m].2 == v);
        assert(!has_id(prev, id));
        assert(!version_seen(prev, cur[m].0, cur[m].2));
        assert(has_change(fwd, cur[m].0));
        let t = choose|t: int| 0 <= t < fwd.len() && #[trigger] fwd[t].0 == id;
        let c = fwd[t];
        assert(justified(c, cur, prev));
        if exists|x: int| 0 <= x < prev.len() && change_of_removed(c, #[trigger] prev[x], cur) {
            let x = choose|x: int| 0 <= x < prev.len() && change_of_removed(c, #[trigger] prev[x], cur);
            assert(prev[x].0 == id);
            assert(false);
        }
        let i = choose|i: int| 0 <= i < cur.len() && change_of_current(c, #[trigger] cur[i], prev);
        if m != i {
            lemma_sorted_ids_distinct(cur, m, i);
        }
        assert(fwd[t].2 == ContextChangeKind::Added);
    }
}

proof fn lemma_updated_swaps(
    cur: Seq<ItemView>,
    prev: Seq<ItemView>,
    fwd: Seq<ChangeView>,
    back: Seq<ChangeView>,
    id: Seq<char>,
    p: Seq<char>,
    q: Seq<char>,
)
    requires
        strictly_sorted(item_ids(cur)),
        strictly_sorted(item_ids(prev)),
        spec_changes(cur, prev, fwd),
        spec_changes(prev, cur, back),
    ensures
        lists_change(fwd, id, ContextChangeKind::Updated, Some(p), Some(q)) ==> lists_change(
            back,
            id,
            ContextChangeKind::Updated,
            Some(q),
            Some(p),
        ),
{
    if lists_change(fwd, id, ContextChangeKind::Updated, Some(p), Some(q)) {
        let t = choose|t: int|
            0 <= t < fwd.len() && (#[trigger] fwd[t]).0 == id && fwd[t].2 == ContextChangeKind::Updated
                && fwd[t].3 == Some(p) && fwd[t].4 == Some(q);
        let c = fwd[t];
        assert(justified(c, cur, prev));
        if exists|x: int| 0 <= x < prev.len() && change_of_removed(c, #[trigger] prev[x], cur) {
            let x = choose|x: int| 0 <= x < prev.len() && change_of_removed(c, #[trigger] prev[x], cur);
            assert(false);
        }
        let i = choose|i: int| 0 <= i < cur.len() && change_of_current(c, #[trigger] cur[i], prev);
        assert(cur[i].0 == id && cur[i].2 == q);
        assert(has_id(prev, cur[i].0));
        let m = choose|m: int|
            0 <= m < prev.len() && #[trigger] prev[m].0 == cur[i].0 && prev[m].2 != cur[i].2 && c.3 == Some(
                prev[m].2,
            );
        assert(prev[m].2 == p);
        if version_seen(cur, prev[m].0, prev[m].2) {
            let x = choose|x: int| 0 <= x < cur.len() && #[trigger] cur[x].0 == prev[m].0 && cur[x].2 == prev[m].2;
            if x != i {
                lemma_sorted_ids_distinct(cur, x, i);
            }
            assert(false);
        }
        assert(has_change(back, prev[m].0));
        let t2 = choose|t2: int| 0 <= t2 < back.len() && #[trigger] back[t2].0 == id;
        let c2 = back[t2];
        assert(justified(c2, prev, cur));
        if exists|x: int| 0 <= x < cur.len() && change_of_removed(c2, #[trigger] cur[x], prev) {
            let x = choose|x: int| 0 <= x < cur.len() && change_of_removed(c2, #[trigger] cur[x], prev);
            assert(cur[x].0 == id);
            assert(prev[m].0 == cur[x].0);
            assert(has_id(prev, cur[x].0));
            assert(false);
        }
        let j = choose|j: int| 0 <= j < prev.len() && change_of_current(c2, #[trigger] prev[j], cur);
        if j != m {
            lemma_sorted_ids_distinct(prev, j, m);
        }
        assert(has_id(cur, prev[j].0));
        let x = choose|x: int|
            0 <= x < cur.len() && #[trigger] cur[x].0 == prev[j].0 && cur[x].2 != prev[j].2 && c2.3 == Some(
                cur[x].2,
            );
        if x != i {
            lemma_sorted_ids_distinct(cur, x, i);
        }
        assert(back[t2].2 == ContextChangeKind::Updated);
    }
}

/// Once a session has seen a snapshot and read every rule of it, no rule of
/// that snapshot is pending.
pub proof fn lemma_no_pending_rules_when_seen(snapshot: ProjectContextSnapshot)
    ensures
        spec_pending_rules(snapshot.view_items(), snapshot.view_items(), Seq::empty()).len() == 0,
{
    let v = snapshot.view_items();
    lemma_pending_rules_seen(v, v, v.len() as int);
    assert(v.take(v.len() as int) == v);
}

proof fn lemma_pending_rules_seen(cur: Seq<ItemView>, prev: Seq<ItemView>, n: int)
    requires
        0 <= n <= cur.len(),
        forall|i: int| 0 <= i < cur.len() ==> version_seen(prev, (#[trigger] cur[i]).0, cur[i].2),
    ensures
        spec_pending_rules(cur.take(n), prev, Seq::empty()).len() == 0,
    decreases n,
{
    if n > 0 {
        assert(cur.take(n).drop_last() == cur.take(n - 1));
        assert(cur.take(n).last() == cur[n - 1]);
        lemma_pending_rules_seen(cur, prev, n - 1);
    }
}

} // verus!

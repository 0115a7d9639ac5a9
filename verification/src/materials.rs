use vstd::prelude::*;

use crate::chars::{chars_of, string_of};
use crate::context::MaterialVersion;
use crate::hashing::{hex_lower, push_utf8, sha256, sha256_hex};
use vstd::utf8::encode_utf8;
use crate::paths::{chars_eq, chars_starts_with, starts_with};
use crate::text::{chars_take, push_chars, push_str_chars};
use crate::vocab::ProjectWorkspaceItemKind;

verus! {

/// The name of a material listing's scope in its cursors.
pub open spec fn scope_name(kind: Option<ProjectWorkspaceItemKind>) -> Seq<char> {
    match kind {
        Some(ProjectWorkspaceItemKind::Document) => "document"@,
        Some(ProjectWorkspaceItemKind::Rule) => "rule"@,
        Some(ProjectWorkspaceItemKind::Skill) => "skill"@,
        None => "all"@,
    }
}

fn scope_str(kind: Option<ProjectWorkspaceItemKind>) -> (r: &'static str)
    ensures
        r@ == scope_name(kind),
{
    match kind {
        Some(ProjectWorkspaceItemKind::Document) => "document",
        Some(ProjectWorkspaceItemKind::Rule) => "rule",
        Some(ProjectWorkspaceItemKind::Skill) => "skill",
        None => "all",
    }
}

/// Whether a listing of `kind` shows the material `m`: the agent may receive
/// it, and it is of that kind when one is asked for.
pub open spec fn listed(m: MaterialVersion, kind: Option<ProjectWorkspaceItemKind>) -> bool {
    m.agent_access && match kind {
        Some(k) => m.kind == k,
        None => true,
    }
}

/// The positions in `items` of the materials that the listing shows, in order.
pub open spec fn listed_positions(
    items: Seq<MaterialVersion>,
    kind: Option<ProjectWorkspaceItemKind>,
) -> Seq<int>
    decreases items.len(),
{
    if items.len() == 0 {
        Seq::empty()
    } else {
        let rest = listed_positions(items.drop_last(), kind);
        if listed(items.last(), kind) {
            rest.push(items.len() - 1)
        } else {
            rest
        }
    }
}

/// The prefix of the listing's cursors: the context revision and the scope.
pub open spec fn material_cursor_prefix(revision: Seq<char>, kind: Option<ProjectWorkspaceItemKind>) -> Seq<char> {
    revision + ":"@ + scope_name(kind) + ":"@
}

pub open spec fn msg_listing_changed() -> Seq<char> {
    "Контекст или kind изменились: начните список материалов без cursor"@
}

pub open spec fn msg_unknown_material_cursor() -> Seq<char> {
    "Неизвестный cursor: начните список материалов заново"@
}

/// The page size: the requested limit (20 by default) within 1..=100.
pub open spec fn material_limit(limit: Option<usize>) -> int {
    let l: int = match limit {
        Some(l) => l as int,
        None => 20,
    };
    if l < 1 {
        1
    } else if l > 100 {
        100
    } else {
        l
    }
}

/// Where a listing resumes: after the material that the cursor names, or at
/// the start without a cursor.
pub open spec fn spec_material_offset(
    ids: Seq<Seq<char>>,
    prefix: Seq<char>,
    cursor: Option<Seq<char>>,
) -> Result<int, Seq<char>> {
    match cursor {
        None => Ok(0),
        Some(c) => if !starts_with(c, prefix) {
            Err(msg_listing_changed())
        } else {
            let id = c.skip(prefix.len() as int);
            if exists|p: int| 0 <= p < ids.len() && ids[p] == id {
                let p = choose|p: int|
                    0 <= p < ids.len() && ids[p] == id && forall|q: int| 0 <= q < p ==> ids[q] != id;
                Ok(p + 1)
            } else {
                Err(msg_unknown_material_cursor())
            }
        },
    }
}

/// One page of a listing of project materials.
pub struct MaterialPage {
    /// Positions in the input of the materials on this page, in order.
    pub positions: Vec<usize>,
    /// How many materials the listing shows in all.
    pub total: usize,
    /// How many come after this page.
    pub remaining: usize,
    /// The cursor of the next page, when there is one.
    pub next_cursor: Option<String>,
}

pub open spec fn usizes(v: Seq<usize>) -> Seq<int> {
    v.map_values(|x: usize| x as int)
}

/// Pages through the materials that the agent may receive, of one kind or
/// all. A cursor names the last material of the previous page and carries
/// the context revision and the kind, so that it is refused once either
/// changed.
pub fn material_page(
    revision: &str,
    kind: Option<ProjectWorkspaceItemKind>,
    items: &Vec<MaterialVersion>,
    cursor: Option<&str>,
    limit: Option<usize>,
) -> (r: Result<MaterialPage, String>)
    ensures
        ({
            let shown = listed_positions(items@, kind);
            let ids = shown.map_values(|p: int| items@[p].id@);
            let prefix = material_cursor_prefix(revision@, kind);
            let c = match cursor {
                Some(c) => Some(c@),
                None => None,
            };
            match (r, spec_material_offset(ids, prefix, c)) {
                (Ok(page), Ok(offset)) => {
                    let end = if offset + material_limit(limit) < shown.len() {
                        offset + material_limit(limit)
                    } else {
                        shown.len() as int
                    };
                    &&& usizes(page.positions@) == shown.subrange(offset, end)
                    &&& page.total == shown.len()
                    &&& page.remaining == shown.len() - end
                    &&& match page.next_cursor {
                        Some(n) => end < shown.len() && n@ == prefix + ids[end - 1],
                        None => end == shown.len(),
                    }
                },
                (Err(e), Err(m)) => e@ == m,
                _ => false,
            }
        }),
{
    let ghost shown = listed_positions(items@, kind);
    let ghost ids = shown.map_values(|p: int| items@[p].id@);
    // The positions of the listed materials.
    let mut positions: Vec<usize> = Vec::new();
    let mut i: usize = 0;
    while i < items.len()
        invariant
            i <= items@.len(),
            usizes(positions@) == listed_positions(items@.take(i as int), kind),
            forall|k: int| 0 <= k < positions@.len() ==> positions@[k] < i,
        decreases items.len() - i,
    {
        assert(items@.take(i + 1).drop_last() == items@.take(i as int));
        assert(items@.take(i + 1).last() == items@[i as int]);
        let m = &items[i];
        let shows = m.agent_access && match kind {
            Some(k) => m.kind == k,
            None => true,
        };
        if shows {
            let ghost before = positions@;
            positions.push(i);
            assert(usizes(positions@) == usizes(before).push(i as int));
        }
        i = i + 1;
    }
    assert(items@.take(items@.len() as int) == items@);
    let total = positions.len();
    assert forall|q: int| 0 <= q < shown.len() implies 0 <= #[trigger] shown[q] < items@.len() by {
        assert(usizes(positions@)[q] == positions@[q] as int);
    }
    // The cursor prefix.
    let mut prefix: Vec<char> = Vec::new();
    push_str_chars(&mut prefix, revision);
    push_str_chars(&mut prefix, ":");
    push_str_chars(&mut prefix, scope_str(kind));
    push_str_chars(&mut prefix, ":");
    let ghost pre = material_cursor_prefix(revision@, kind);
    assert(prefix@ == pre);
    let offset: usize = match cursor {
        None => 0,
        Some(c) => {
            let cs = chars_of(c);
            if !chars_starts_with(&cs, &prefix) {
                return Err(String::from_str("Контекст или kind изменились: начните список материалов без cursor"));
            }
            let ghost id = c@.skip(pre.len() as int);
            let rest = chars_take(&cs, prefix.len(), cs.len());
            assert(rest@ == id);
            let mut p: usize = 0;
            let mut found = false;
            while p < total
                invariant_except_break
                    !found,
                invariant
                    p <= total,
                    total == shown.len(),
                    usizes(positions@) == shown,
                    ids == shown.map_values(|q: int| items@[q].id@),
                    rest@ == id,
                    forall|q: int| 0 <= q < shown.len() ==> 0 <= #[trigger] shown[q] < items@.len(),
                    forall|q: int| 0 <= q < p ==> ids[q] != id,
                ensures
                    p <= total,
                    !found ==> p == total,
                    found ==> p < total && ids[p as int] == id,
                    forall|q: int| 0 <= q < p ==> ids[q] != id,
                decreases total - p,
            {
                assert(usizes(positions@)[p as int] == positions@[p as int] as int);
                let name = chars_of(items[positions[p]].id.as_str());
                assert(ids[p as int] == name@);
                if chars_eq(&name, &rest) {
                    found = true;
                    break;
                }
                p = p + 1;
            }
            proof {
                if found {
                    let w = choose|w: int|
                        0 <= w < ids.len() && ids[w] == id && forall|q: int| 0 <= q < w ==> ids[q] != id;
                    assert(w == p) by {
                        if w < p {
                        } else if w > p {
                            assert(ids[p as int] != id);
                        }
                    }
                } else {
                    assert(!exists|q: int| 0 <= q < ids.len() && ids[q] == id);
                }
            }
            if !found {
                return Err(String::from_str("Неизвестный cursor: начните список материалов заново"));
            }
            p + 1
        },
    };
    let lim: usize = match limit {
        Some(l) => if l < 1 { 1 } else if l > 100 { 100 } else { l },
        None => 20,
    };
    let end: usize = if offset < total && lim < total - offset { offset + lim } else { total };
    let mut page: Vec<usize> = Vec::new();
    let mut j: usize = offset;
    while j < end
        invariant
            offset <= j <= end <= total,
            total == shown.len(),
            usizes(positions@) == shown,
            usizes(page@) == shown.subrange(offset as int, j as int),
        decreases end - j,
    {
        page.push(positions[j]);
        assert(shown.subrange(offset as int, j + 1) == shown.subrange(offset as int, j as int).push(shown[j as int]));
        j = j + 1;
    }
    let remaining = total - end;
    let next_cursor = if remaining > 0 {
        let mut v: Vec<char> = prefix;
        assert(usizes(positions@)[end - 1] == positions@[end - 1] as int);
        let last = chars_of(items[positions[end - 1]].id.as_str());
        push_chars(&mut v, &last);
        Some(string_of(&v))
    } else {
        None
    };
    Ok(MaterialPage { positions: page, total, remaining, next_cursor })
}

/// The bytes whose digest names an update of a material: a tag, then the
/// project id, the material id and the expected version, each ended by a
/// zero byte.
pub open spec fn update_digest_input(project_id: Seq<char>, id: Seq<char>, expected_version: Seq<char>) -> Seq<u8> {
    encode_utf8("flood.workspace-update-request.v1"@) + seq![0u8] + encode_utf8(project_id) + seq![0u8]
        + encode_utf8(id) + seq![0u8] + encode_utf8(expected_version) + seq![0u8]
}

/// The request id of an update of a material from its expected version: the
/// same update of the same version always gets the same id, so a repeated
/// update is recognised.
pub fn workspace_update_request_id(project_id: &str, id: &str, expected_version: &str) -> (r: String)
    ensures
        r@ == "workspace-update-"@ + hex_lower(sha256(update_digest_input(project_id@, id@, expected_version@))),
{
    let mut bytes: Vec<u8> = Vec::new();
    push_utf8(&mut bytes, "flood.workspace-update-request.v1");
    bytes.push(0u8);
    push_utf8(&mut bytes, project_id);
    bytes.push(0u8);
    push_utf8(&mut bytes, id);
    bytes.push(0u8);
    push_utf8(&mut bytes, expected_version);
    bytes.push(0u8);
    assert(bytes@ == update_digest_input(project_id@, id@, expected_version@));
    let digest = sha256_hex(&bytes);
    let mut v: Vec<char> = Vec::new();
    push_str_chars(&mut v, "workspace-update-");
    push_str_chars(&mut v, digest.as_str());
    string_of(&v)
}


pub open spec fn msg_new_guidance_needs_review() -> Seq<char> {
    "Новый rule/skill нельзя сразу выдать агенту: создайте его с agent_access=false и включите Agent access в приложении после проверки"@
}

/// Whether an agent may create a material with the access it asks for:
/// under the context route, a new rule or skill must start without agent
/// access, so that the user reviews it before it guides agents.
pub fn new_material_access_check(enforce_context_route: bool, agent_access: bool, kind: ProjectWorkspaceItemKind) -> (r: Result<(), String>)
    ensures
        match r {
            Ok(()) => !(enforce_context_route && agent_access && kind != ProjectWorkspaceItemKind::Document),
            Err(e) => enforce_context_route && agent_access && kind != ProjectWorkspaceItemKind::Document
                && e@ == msg_new_guidance_needs_review(),
        },
{
    if enforce_context_route && agent_access && kind != ProjectWorkspaceItemKind::Document {
        Err(String::from_str("Новый rule/skill нельзя сразу выдать агенту: создайте его с agent_access=false и включите Agent access в приложении после проверки"))
    } else {
        Ok(())
    }
}


pub open spec fn msg_material_access_off() -> Seq<char> {
    "Доступ агента к материалу не разрешён; включите Agent access в приложении"@
}

pub open spec fn msg_material_changed() -> Seq<char> {
    "Материал изменён; перечитайте его и подготовьте новый preview"@
}

pub open spec fn msg_review_required() -> Seq<char> {
    "Изменения project knowledge через MCP применяются только через proposal и человеческий review"@
}

/// A refused tool call: a machine-readable code and a message.
pub struct ToolRefusal {
    pub code: &'static str,
    pub message: String,
}

/// Whether an agent may apply an update of a material: never under the
/// context route (changes go through a reviewed proposal); otherwise only
/// with agent access to the material, and only from its current version.
pub fn material_update_gate(
    enforce_context_route: bool,
    agent_access: bool,
    current_version: &str,
    expected_version: &str,
) -> (r: Result<(), ToolRefusal>)
    ensures
        match r {
            Ok(()) => !enforce_context_route && agent_access && current_version@ == expected_version@,
            Err(x) => if enforce_context_route {
                x.code@ == "review_required"@ && x.message@ == msg_review_required()
            } else if !agent_access {
                x.code@ == "tool_error"@ && x.message@ == msg_material_access_off()
            } else {
                current_version@ != expected_version@ && x.code@ == "conflict"@ && x.message@ == msg_material_changed()
            },
        },
{
    if enforce_context_route {
        return Err(ToolRefusal {
            code: "review_required",
            message: String::from_str("Изменения project knowledge через MCP применяются только через proposal и человеческий review"),
        });
    }
    if !agent_access {
        return Err(ToolRefusal {
            code: "tool_error",
            message: String::from_str("Доступ агента к материалу не разрешён; включите Agent access в приложении"),
        });
    }
    if !chars_eq(&chars_of(current_version), &chars_of(expected_version)) {
        return Err(ToolRefusal {
            code: "conflict",
            message: String::from_str("Материал изменён; перечитайте его и подготовьте новый preview"),
        });
    }
    Ok(())
}

/// A material as it is or as an update proposes it.
pub struct MaterialFields {
    pub title: String,
    pub summary: Option<String>,
    pub content: String,
    pub agent_access: bool,
}

/// What a preview says of an update: the fields it changes and how the
/// Markdown's size changes.
pub struct MaterialUpdatePreview {
    pub changed_fields: Vec<&'static str>,
    pub content_change_summary: String,
}

pub open spec fn spec_changed_fields(current: MaterialFields, proposed: MaterialFields) -> Seq<Seq<char>> {
    (if current.title@ != proposed.title@ { seq!["title"@] } else { Seq::empty() })
        + (if crate::batch::opt_view(current.summary) != crate::batch::opt_view(proposed.summary) { seq!["summary"@] } else { Seq::empty() })
        + (if current.content@ != proposed.content@ { seq!["content"@] } else { Seq::empty() })
        + (if current.agent_access != proposed.agent_access { seq!["agent_access"@] } else { Seq::empty() })
}

pub open spec fn spec_content_change_summary(current: Seq<char>, proposed: Seq<char>) -> Seq<char> {
    "Markdown: "@ + crate::decimal::decimal_digits(crate::todos::spec_lines(current).len()) + " строк → "@
        + crate::decimal::decimal_digits(crate::todos::spec_lines(proposed).len()) + " строк; "@
        + crate::decimal::decimal_digits(current.len()) + " символов → "@
        + crate::decimal::decimal_digits(proposed.len()) + " символов"@
}

fn opt_eq(a: &Option<String>, b: &Option<String>) -> (r: bool)
    ensures
        r == (crate::batch::opt_view(*a) == crate::batch::opt_view(*b)),
{
    match (a, b) {
        (Some(x), Some(y)) => chars_eq(&chars_of(x.as_str()), &chars_of(y.as_str())),
        (None, None) => true,
        _ => false,
    }
}

/// The preview of an update of a material that the agent may read, from the
/// version it expects: the changed fields, in the order title, summary,
/// content and access, and the Markdown's lines and characters before and
/// after. Refused without access or from a stale version.
pub fn material_update_preview(
    agent_access: bool,
    current_version: &str,
    expected_version: &str,
    current: &MaterialFields,
    proposed: &MaterialFields,
) -> (r: Result<MaterialUpdatePreview, String>)
    ensures
        match r {
            Ok(p) => {
                &&& agent_access && current_version@ == expected_version@
                &&& crate::catalog::str_list(p.changed_fields@) == spec_changed_fields(*current, *proposed)
                &&& p.content_change_summary@ == spec_content_change_summary(current.content@, proposed.content@)
            },
            Err(e) => if !agent_access {
                e@ == msg_material_access_off()
            } else {
                current_version@ != expected_version@ && e@ == msg_material_changed()
            },
        },
{
    if !agent_access {
        return Err(String::from_str("Доступ агента к материалу не разрешён; включите Agent access в приложении"));
    }
    if !chars_eq(&chars_of(current_version), &chars_of(expected_version)) {
        return Err(String::from_str("Материал изменён; перечитайте его и подготовьте новый preview"));
    }
    let mut fields: Vec<&'static str> = Vec::new();
    if !chars_eq(&chars_of(current.title.as_str()), &chars_of(proposed.title.as_str())) {
        fields.push("title");
    }
    if !opt_eq(&current.summary, &proposed.summary) {
        fields.push("summary");
    }
    let cc = chars_of(current.content.as_str());
    let pc = chars_of(proposed.content.as_str());
    if !chars_eq(&cc, &pc) {
        fields.push("content");
    }
    if current.agent_access != proposed.agent_access {
        fields.push("agent_access");
    }
    assert(crate::catalog::str_list(fields@) =~= spec_changed_fields(*current, *proposed));
    let mut v: Vec<char> = Vec::new();
    push_str_chars(&mut v, "Markdown: ");
    let a = crate::decimal::to_decimal(crate::todos::lines_of(&cc).len());
    push_chars(&mut v, &a);
    push_str_chars(&mut v, " строк → ");
    let b = crate::decimal::to_decimal(crate::todos::lines_of(&pc).len());
    push_chars(&mut v, &b);
    push_str_chars(&mut v, " строк; ");
    let c = crate::decimal::to_decimal(cc.len());
    push_chars(&mut v, &c);
    push_str_chars(&mut v, " символов → ");
    let d = crate::decimal::to_decimal(pc.len());
    push_chars(&mut v, &d);
    push_str_chars(&mut v, " символов");
    Ok(MaterialUpdatePreview { changed_fields: fields, content_change_summary: string_of(&v) })
}


/// A saved earlier state of a project material.
pub struct ProjectWorkspaceItemRevision {
    pub version: String,
    pub title: String,
    pub summary: Option<String>,
    pub content: String,
    pub agent_access: bool,
    pub saved_at_nanos: i128,
}

/// A project material (document, rule or skill) with its history.
pub struct ProjectWorkspaceItem {
    pub id: String,
    pub project_id: String,
    pub kind: ProjectWorkspaceItemKind,
    pub title: String,
    pub summary: Option<String>,
    pub agent_access: bool,
    pub created_at_nanos: i128,
    pub updated_at_nanos: i128,
    pub version: String,
    pub content: String,
    pub revisions: Vec<ProjectWorkspaceItemRevision>,
}

/// What a listing shows of a material.
pub struct ProjectWorkspaceItemSummary {
    pub id: String,
    pub project_id: String,
    pub kind: ProjectWorkspaceItemKind,
    pub title: String,
    pub summary: Option<String>,
    pub agent_access: bool,
    pub created_at_nanos: i128,
    pub updated_at_nanos: i128,
    pub version: String,
    pub content_chars: usize,
    pub revision_count: usize,
    pub content: Option<String>,
}

/// What a single read of a material returns.
pub struct ProjectWorkspaceItemReadOutput {
    pub item: ProjectWorkspaceItem,
    pub created: bool,
    pub request_id: Option<String>,
    pub revision_count: usize,
    pub history_included: bool,
    pub content_is_untrusted_data: bool,
}

/// Whether the agent may see a revision: only those saved while the agent
/// had access.
pub open spec fn revision_visible() -> spec_fn(ProjectWorkspaceItemRevision) -> bool {
    |r: ProjectWorkspaceItemRevision| r.agent_access
}

/// The revisions the agent may see, in order.
pub open spec fn visible_revisions(rs: Seq<ProjectWorkspaceItemRevision>) -> Seq<ProjectWorkspaceItemRevision> {
    rs.filter(revision_visible())
}

fn keep_visible(revisions: Vec<ProjectWorkspaceItemRevision>) -> (r: Vec<ProjectWorkspaceItemRevision>)
    ensures
        r@ == visible_revisions(revisions@),
{
    let ghost orig = revisions@;
    let n = revisions.len();
    let mut rest = revisions;
    let mut out: Vec<ProjectWorkspaceItemRevision> = Vec::new();
    let mut k: usize = 0;
    while rest.len() > 0
        invariant
            n == orig.len(),
            k + rest@.len() == orig.len(),
            rest@ == orig.skip(k as int),
            out@ == orig.take(k as int).filter(revision_visible()),
        decreases rest.len(),
    {
        let r = rest.remove(0);
        assert(r == orig[k as int]);
        proof {
            reveal_with_fuel(Seq::filter, 1);
            assert(orig.take(k + 1).drop_last() == orig.take(k as int));
            assert(orig.take(k + 1).last() == r);
        }
        if r.agent_access {
            out.push(r);
        }
        k = k + 1;
        assert(rest@ == orig.skip(k as int));
    }
    assert(orig.take(orig.len() as int) == orig);
    out
}

/// How many revisions the agent may see.
fn count_visible(revisions: &Vec<ProjectWorkspaceItemRevision>) -> (r: usize)
    ensures
        r == visible_revisions(revisions@).len(),
{
    let mut c: usize = 0;
    let mut i: usize = 0;
    while i < revisions.len()
        invariant
            i <= revisions@.len(),
            c == revisions@.take(i as int).filter(revision_visible()).len(),
            c <= i,
        decreases revisions.len() - i,
    {
        proof {
            reveal_with_fuel(Seq::filter, 1);
            assert(revisions@.take(i + 1).drop_last() == revisions@.take(i as int));
            assert(revisions@.take(i + 1).last() == revisions@[i as int]);
        }
        if revisions[i].agent_access {
            c = c + 1;
        }
        i = i + 1;
    }
    assert(revisions@.take(revisions@.len() as int) == revisions@);
    c
}

impl ProjectWorkspaceItemSummary {
    /// A material as a listing shows it: its content only when asked for and
    /// the agent has access, its length in characters always, and the number
    /// of revisions the agent may see (none without access).
    pub fn new(item: ProjectWorkspaceItem, include_content: bool) -> (r: Self)
        ensures
            r.content == (if include_content && item.agent_access { Some(item.content) } else { None }),
            r.content_chars == item.content@.len(),
            r.revision_count == if item.agent_access { visible_revisions(item.revisions@).len() } else { 0 },
            r.id == item.id,
            r.project_id == item.project_id,
            r.kind == item.kind,
            r.title == item.title,
            r.summary == item.summary,
            r.agent_access == item.agent_access,
            r.created_at_nanos == item.created_at_nanos,
            r.updated_at_nanos == item.updated_at_nanos,
            r.version == item.version,
    {
        let revision_count = if item.agent_access { count_visible(&item.revisions) } else { 0 };
        let content_chars = chars_of(item.content.as_str()).len();
        let ProjectWorkspaceItem {
            id,
            project_id,
            kind,
            title,
            summary,
            agent_access,
            created_at_nanos,
            updated_at_nanos,
            version,
            content,
            revisions: _,
        } = item;
        ProjectWorkspaceItemSummary {
            id,
            project_id,
            kind,
            title,
            summary,
            agent_access,
            created_at_nanos,
            updated_at_nanos,
            version,
            content_chars,
            revision_count,
            content: if include_content && agent_access { Some(content) } else { None },
        }
    }
}

impl ProjectWorkspaceItemReadOutput {
    /// A single read of a material: its history reduced to the revisions the
    /// agent may see, counted always and returned only when asked for.
    pub fn new(item: ProjectWorkspaceItem, include_history: bool) -> (r: Self)
        ensures
            r.revision_count == visible_revisions(item.revisions@).len(),
            r.item.revisions@ == if include_history { visible_revisions(item.revisions@) } else { Seq::empty() },
            r.history_included == include_history,
            !r.created,
            r.request_id is None,
            r.content_is_untrusted_data,
            r.item.id == item.id,
            r.item.project_id == item.project_id,
            r.item.kind == item.kind,
            r.item.title == item.title,
            r.item.summary == item.summary,
            r.item.agent_access == item.agent_access,
            r.item.created_at_nanos == item.created_at_nanos,
            r.item.updated_at_nanos == item.updated_at_nanos,
            r.item.version == item.version,
            r.item.content == item.content,
    {
        let ProjectWorkspaceItem {
            id,
            project_id,
            kind,
            title,
            summary,
            agent_access,
            created_at_nanos,
            updated_at_nanos,
            version,
            content,
            revisions,
        } = item;
        let visible = keep_visible(revisions);
        let revision_count = visible.len();
        let kept = if include_history { visible } else { Vec::new() };
        ProjectWorkspaceItemReadOutput {
            item: ProjectWorkspaceItem {
                id,
                project_id,
                kind,
                title,
                summary,
                agent_access,
                created_at_nanos,
                updated_at_nanos,
                version,
                content,
                revisions: kept,
            },
            created: false,
            request_id: None,
            revision_count,
            history_included: include_history,
            content_is_untrusted_data: true,
        }
    }
}

} // verus!

use vstd::prelude::*;

use crate::chars::{chars_of, string_of};
use crate::decimal::{spec_parse_usize, decimal_digits, parse_usize, to_decimal, lemma_decimal_roundtrip,
    all_digits, decimal_value, is_digit};
use crate::paths::{split_on, split_chars, views, starts_with, chars_starts_with, chars_is};
use crate::text::{index_of_char, trim_ws, trim_chars, chars_take, lemma_index_of_char_unique, push_str_chars};
use crate::vocab::{ProjectWorkspaceItemKind, kind_segment, workspace_kind_from_uri,
    workspace_kind_uri_segment, lemma_names_are_distinct};

verus! {

/// A resource that the server publishes.
pub enum FloodResource {
    /// `flood://projects/{project_id}/context`: the project statement and memory.
    ProjectContext { project_id: String },
    /// `flood://projects/{project_id}/{kind}/{item_id}`: a material with agent access.
    ProjectMaterial { project_id: String, kind: ProjectWorkspaceItemKind, item_id: String },
}

/// The values a resource names: project, and for a material its kind and id.
pub open spec fn resource_view(r: FloodResource) -> (Seq<char>, Option<(ProjectWorkspaceItemKind, Seq<char>)>) {
    match r {
        FloodResource::ProjectContext { project_id } => (project_id@, None),
        FloodResource::ProjectMaterial { project_id, kind, item_id } => (project_id@, Some((kind, item_id@))),
    }
}

pub open spec fn uri_prefix() -> Seq<char> {
    "flood://projects/"@
}

pub open spec fn context_suffix() -> Seq<char> {
    "context"@
}

/// The URI of a project's context resource.
pub open spec fn spec_context_uri(project_id: Seq<char>) -> Seq<char> {
    uri_prefix() + project_id + seq!['/'] + context_suffix()
}

/// The URI of a project material resource.
pub open spec fn spec_material_uri(project_id: Seq<char>, kind: ProjectWorkspaceItemKind, item_id: Seq<char>) -> Seq<char> {
    uri_prefix() + project_id + seq!['/'] + kind_segment(kind) + seq!['/'] + item_id
}

pub open spec fn msg_unsupported_uri() -> Seq<char> {
    "Unsupported flood resource URI"@
}

pub open spec fn msg_expected_uri() -> Seq<char> {
    "Expected flood://projects/{project_id}/context or flood://projects/{project_id}/{documents|rules|skills}/{item_id}"@
}

pub open spec fn msg_unknown_kind() -> Seq<char> {
    "Unknown project material kind"@
}

/// The material kind named by a URI segment.
pub open spec fn kind_of_segment(seg: Seq<char>) -> Option<ProjectWorkspaceItemKind> {
    if seg == kind_segment(ProjectWorkspaceItemKind::Document) {
        Some(ProjectWorkspaceItemKind::Document)
    } else if seg == kind_segment(ProjectWorkspaceItemKind::Rule) {
        Some(ProjectWorkspaceItemKind::Rule)
    } else if seg == kind_segment(ProjectWorkspaceItemKind::Skill) {
        Some(ProjectWorkspaceItemKind::Skill)
    } else {
        None
    }
}

/// What `parse_flood_resource_uri` gives: the `/`-segments after
/// `flood://projects/` name a project context (`id/context`) or a material
/// (`id/kind/item`).
pub open spec fn spec_parse_resource_uri(uri: Seq<char>) -> Result<(Seq<char>, Option<(ProjectWorkspaceItemKind, Seq<char>)>), Seq<char>> {
    if !starts_with(uri, uri_prefix()) {
        Err(msg_unsupported_uri())
    } else {
        let segs = split_on(uri.skip(uri_prefix().len() as int), '/');
        if segs.len() == 2 && segs[1] == context_suffix() {
            Ok((segs[0], None))
        } else if segs.len() != 3 {
            Err(msg_expected_uri())
        } else {
            match kind_of_segment(segs[1]) {
                Some(k) => Ok((segs[0], Some((k, segs[2])))),
                None => Err(msg_unknown_kind()),
            }
        }
    }
}

/// The URI of a project's context resource.
pub fn project_context_uri(project_id: &str) -> (r: String)
    ensures
        r@ == spec_context_uri(project_id@),
{
    let mut v: Vec<char> = Vec::new();
    push_str_chars(&mut v, "flood://projects/");
    push_str_chars(&mut v, project_id);
    v.push('/');
    push_str_chars(&mut v, "context");
    string_of(&v)
}

/// The URI of a project material resource.
pub fn project_material_uri(project_id: &str, kind: ProjectWorkspaceItemKind, item_id: &str) -> (r: String)
    ensures
        r@ == spec_material_uri(project_id@, kind, item_id@),
{
    let mut v: Vec<char> = Vec::new();
    push_str_chars(&mut v, "flood://projects/");
    push_str_chars(&mut v, project_id);
    v.push('/');
    push_str_chars(&mut v, workspace_kind_uri_segment(kind));
    v.push('/');
    push_str_chars(&mut v, item_id);
    string_of(&v)
}

/// Reads a `flood://projects/...` resource URI.
pub fn parse_flood_resource_uri(uri: &str) -> (r: Result<FloodResource, String>)
    ensures
        match r {
            Ok(res) => spec_parse_resource_uri(uri@) == Ok::<_, Seq<char>>(resource_view(res)),
            Err(e) => spec_parse_resource_uri(uri@) == Err::<(Seq<char>, Option<(ProjectWorkspaceItemKind, Seq<char>)>), _>(e@),
        },
{
    let u = chars_of(uri);
    let prefix = chars_of("flood://projects/");
    if !chars_starts_with(&u, &prefix) {
        return Err(String::from_str("Unsupported flood resource URI"));
    }
    let rest = chars_take(&u, prefix.len(), u.len());
    assert(rest@ == uri@.skip(uri_prefix().len() as int));
    let segs = split_chars(&rest, '/');
    if segs.len() == 2 && chars_is(&segs[1], "context") {
        return Ok(FloodResource::ProjectContext { project_id: string_of(&segs[0]) });
    }
    if segs.len() != 3 {
        return Err(String::from_str("Expected flood://projects/{project_id}/context or flood://projects/{project_id}/{documents|rules|skills}/{item_id}"));
    }
    let seg1 = string_of(&segs[1]);
    match workspace_kind_from_uri(seg1.as_str()) {
        Some(kind) => {
            proof {
                lemma_names_are_distinct();
            }
            Ok(FloodResource::ProjectMaterial { project_id: string_of(&segs[0]), kind, item_id: string_of(&segs[2]) })
        },
        None => Err(String::from_str("Unknown project material kind")),
    }
}

/// Splitting at the first separator of a piece without separators.
proof fn lemma_split_on_concat(a: Seq<char>, b: Seq<char>, sep: char)
    requires
        !a.contains(sep),
    ensures
        split_on(a + seq![sep] + b, sep) == seq![a] + split_on(b, sep),
{
    let s = a + seq![sep] + b;
    assert forall|j: int| 0 <= j < a.len() implies s[j] != sep by {
        assert(s[j] == a[j]);
        if s[j] == sep {
            assert(a.contains(sep));
        }
    }
    lemma_index_of_char_unique(s, sep, a.len() as int);
    assert(s.take(a.len() as int) == a);
    assert(s.skip(a.len() as int + 1) == b);
}

proof fn lemma_split_on_plain(a: Seq<char>, sep: char)
    requires
        !a.contains(sep),
    ensures
        split_on(a, sep) == seq![a],
{
    assert forall|j: int| 0 <= j < a.len() implies a[j] != sep by {
        if a[j] == sep {
            assert(a.contains(sep));
        }
    }
    lemma_index_of_char_unique(a, sep, a.len() as int);
}

/// Law: the URIs the server publishes read back as the resources they name,
/// for ids without a `/`.
pub proof fn lemma_resource_uri_roundtrip(project_id: Seq<char>, kind: ProjectWorkspaceItemKind, item_id: Seq<char>)
    requires
        !project_id.contains('/'),
        !item_id.contains('/'),
    ensures
        spec_parse_resource_uri(spec_context_uri(project_id)) == Ok::<_, Seq<char>>((project_id, None::<(ProjectWorkspaceItemKind, Seq<char>)>)),
        spec_parse_resource_uri(spec_material_uri(project_id, kind, item_id)) == Ok::<_, Seq<char>>((project_id, Some((kind, item_id)))),
{
    reveal_strlit("flood://projects/");
    reveal_strlit("context");
    reveal_strlit("documents");
    reveal_strlit("rules");
    reveal_strlit("skills");
    lemma_names_are_distinct();
    let p = uri_prefix();
    let c = spec_context_uri(project_id);
    assert(c.take(p.len() as int) == p);
    assert(c.skip(p.len() as int) =~= project_id + seq!['/'] + context_suffix());
    assert(!context_suffix().contains('/')) by {
        assert forall|j: int| 0 <= j < context_suffix().len() implies context_suffix()[j] != '/' by {}
    }
    lemma_split_on_concat(project_id, context_suffix(), '/');
    lemma_split_on_plain(context_suffix(), '/');
    let m = spec_material_uri(project_id, kind, item_id);
    let seg = kind_segment(kind);
    assert(m.take(p.len() as int) == p);
    assert(m.skip(p.len() as int) =~= project_id + seq!['/'] + (seg + seq!['/'] + item_id));
    assert(!seg.contains('/')) by {
        assert forall|j: int| 0 <= j < seg.len() implies seg[j] != '/' by {
            match kind {
                ProjectWorkspaceItemKind::Document => {},
                ProjectWorkspaceItemKind::Rule => {},
                ProjectWorkspaceItemKind::Skill => {},
            }
        }
    }
    lemma_split_on_concat(project_id, seg + seq!['/'] + item_id, '/');
    lemma_split_on_concat(seg, item_id, '/');
    lemma_split_on_plain(item_id, '/');
    assert(seg != context_suffix()) by {
        match kind {
            ProjectWorkspaceItemKind::Document => { assert(seg.len() != context_suffix().len()); },
            ProjectWorkspaceItemKind::Rule => { assert(seg.len() != context_suffix().len()); },
            ProjectWorkspaceItemKind::Skill => { assert(seg.len() != context_suffix().len()); },
        }
    }
    assert(kind_of_segment(seg) == Some(kind)) by {
        match kind {
            ProjectWorkspaceItemKind::Document => {},
            ProjectWorkspaceItemKind::Rule => {},
            ProjectWorkspaceItemKind::Skill => {},
        }
    }
}

pub open spec fn cursor_prefix() -> Seq<char> {
    "resources:"@
}

pub open spec fn msg_invalid_cursor() -> Seq<char> {
    "Invalid resource cursor"@
}

pub open spec fn msg_stale_cursor() -> Seq<char> {
    "Stale resource cursor"@
}

/// The cursor that continues a resource listing at `offset`.
pub open spec fn spec_resource_cursor(offset: nat) -> Seq<char> {
    cursor_prefix() + decimal_digits(offset)
}

/// What `parse_resource_cursor` gives: the offset written after `resources:`.
pub open spec fn spec_parse_resource_cursor(cursor: Seq<char>) -> Result<usize, Seq<char>> {
    if !starts_with(cursor, cursor_prefix()) {
        Err(msg_invalid_cursor())
    } else {
        match spec_parse_usize(cursor.skip(cursor_prefix().len() as int)) {
            Some(n) => Ok(n),
            None => Err(msg_invalid_cursor()),
        }
    }
}

/// The cursor that continues a resource listing at `offset`.
pub fn resource_cursor(offset: usize) -> (r: String)
    ensures
        r@ == spec_resource_cursor(offset as nat),
{
    let mut v: Vec<char> = Vec::new();
    push_str_chars(&mut v, "resources:");
    let digits = to_decimal(offset);
    let mut i: usize = 0;
    let ghost head = v@;
    while i < digits.len()
        invariant
            i <= digits@.len(),
            v@ == head + digits@.take(i as int),
        decreases digits.len() - i,
    {
        v.push(digits[i]);
        i = i + 1;
        assert(v@ == head + digits@.take(i as int));
    }
    assert(digits@.take(digits@.len() as int) == digits@);
    string_of(&v)
}

/// Reads a resource listing cursor.
pub fn parse_resource_cursor(cursor: &str) -> (r: Result<usize, String>)
    ensures
        match r {
            Ok(n) => spec_parse_resource_cursor(cursor@) == Ok::<usize, Seq<char>>(n),
            Err(e) => spec_parse_resource_cursor(cursor@) == Err::<usize, Seq<char>>(e@),
        },
{
    let c = chars_of(cursor);
    let prefix = chars_of("resources:");
    if !chars_starts_with(&c, &prefix) {
        return Err(String::from_str("Invalid resource cursor"));
    }
    let rest = chars_take(&c, prefix.len(), c.len());
    assert(rest@ == cursor@.skip(cursor_prefix().len() as int));
    match parse_usize(&rest) {
        Some(n) => Ok(n),
        None => Err(String::from_str("Invalid resource cursor")),
    }
}

/// Law: a cursor made for an offset reads back as that offset.
pub proof fn lemma_resource_cursor_roundtrip(offset: usize)
    ensures
        spec_parse_resource_cursor(spec_resource_cursor(offset as nat)) == Ok::<usize, Seq<char>>(offset),
{
    reveal_strlit("resources:");
    lemma_decimal_roundtrip(offset as nat);
    let c = spec_resource_cursor(offset as nat);
    assert(c.take(cursor_prefix().len() as int) == cursor_prefix());
    assert(c.skip(cursor_prefix().len() as int) == decimal_digits(offset as nat));
}

/// The resources per page of a listing.
pub open spec fn resource_page_size() -> nat {
    100
}

/// One page of the sorted resource listing: the resources at
/// `offset..end`, and the cursor of the next page when resources remain.
pub struct ResourcePage {
    pub offset: usize,
    pub end: usize,
    pub next_cursor: Option<String>,
}

/// What `resource_page` gives for a listing of `total` resources: the page at
/// the cursor's offset (the first page without one), at most a hundred
/// resources, and the next cursor when resources remain; a cursor past the end
/// is stale.
pub open spec fn spec_resource_page(total: nat, cursor: Option<Seq<char>>) -> Result<(nat, nat, Option<Seq<char>>), Seq<char>> {
    let offset: Result<usize, Seq<char>> = match cursor {
        Some(c) => spec_parse_resource_cursor(c),
        None => Ok(0usize),
    };
    match offset {
        Err(e) => Err(e),
        Ok(offset) => if offset > total {
            Err(msg_stale_cursor())
        } else {
            let end: nat = if total - offset <= resource_page_size() { total } else { (offset + resource_page_size()) as nat };
            Ok((offset as nat, end, if end < total { Some(spec_resource_cursor(end)) } else { None }))
        },
    }
}

/// The page of a sorted listing of `total` resources that the cursor asks for.
pub fn resource_page(total: usize, cursor: Option<&str>) -> (r: Result<ResourcePage, String>)
    ensures
        match r {
            Ok(p) => spec_resource_page(total as nat, match cursor { Some(c) => Some(c@), None => None }) == Ok::<_, Seq<char>>((p.offset as nat, p.end as nat, match p.next_cursor { Some(c) => Some(c@), None => None })),
            Err(e) => spec_resource_page(total as nat, match cursor { Some(c) => Some(c@), None => None }) == Err::<(nat, nat, Option<Seq<char>>), Seq<char>>(e@),
        },
{
    let offset = match cursor {
        Some(c) => match parse_resource_cursor(c) {
            Ok(n) => n,
            Err(e) => return Err(e),
        },
        None => 0,
    };
    if offset > total {
        return Err(String::from_str("Stale resource cursor"));
    }
    let end = if total - offset <= 100 { total } else { offset + 100 };
    let next_cursor = if end < total { Some(resource_cursor(end)) } else { None };
    Ok(ResourcePage { offset, end, next_cursor })
}

/// What `project_context_markdown` renders: the title as a heading, the
/// trimmed statement, and the trimmed active memory entries as a list.
pub open spec fn spec_project_context_markdown(title: Seq<char>, context: Seq<char>, memory: Seq<Seq<char>>) -> Seq<char> {
    let head = "# "@ + title + seq!['\n', '\n'] + trim_ws(context);
    if memory.len() == 0 {
        head
    } else {
        head + "\n\n## Память проекта\n"@ + memory_list(memory)
    }
}

/// The memory entries, each on its own `- ` line.
pub open spec fn memory_list(memory: Seq<Seq<char>>) -> Seq<char>
    decreases memory.len(),
{
    if memory.len() == 0 {
        Seq::empty()
    } else {
        memory_list(memory.drop_last()) + "\n- "@ + trim_ws(memory.last())
    }
}

/// The Markdown of the project context resource: title, statement and the
/// active memory entries (`memory` holds their texts, in order).
pub fn project_context_markdown(title: &str, context: &str, memory: &Vec<String>) -> (r: String)
    ensures
        r@ == spec_project_context_markdown(title@, context@, crate::order::str_views(memory@)),
{
    let mut v: Vec<char> = Vec::new();
    push_str_chars(&mut v, "# ");
    push_str_chars(&mut v, title);
    v.push('\n');
    v.push('\n');
    let ctx = string_of(&trim_chars(&chars_of(context)));
    push_str_chars(&mut v, ctx.as_str());
    if memory.len() > 0 {
        push_str_chars(&mut v, "\n\n## Память проекта\n");
        let ghost head = v@;
        let ghost ms = crate::order::str_views(memory@);
        let mut i: usize = 0;
        while i < memory.len()
            invariant
                i <= memory@.len(),
                ms == crate::order::str_views(memory@),
                v@ == head + memory_list(ms.take(i as int)),
            decreases memory.len() - i,
        {
            assert(ms.take(i as int + 1).drop_last() == ms.take(i as int));
            assert(ms.take(i as int + 1).last() == memory@[i as int]@);
            push_str_chars(&mut v, "\n- ");
            let entry = string_of(&trim_chars(&chars_of(memory[i].as_str())));
            push_str_chars(&mut v, entry.as_str());
            i = i + 1;
        }
        assert(ms.take(memory@.len() as int) == ms);
    }
    string_of(&v)
}

/// What `project_material_markdown` renders: the title as a heading, the
/// summary when there is one, and the trimmed content.
pub open spec fn spec_material_markdown(title: Seq<char>, summary: Option<Seq<char>>, content: Seq<char>) -> Seq<char> {
    let head = "# "@ + title + seq!['\n'];
    let with_summary = match summary {
        Some(s) => head + seq!['\n'] + s + seq!['\n'],
        None => head,
    };
    with_summary + seq!['\n'] + trim_ws(content)
}

/// The Markdown of a project material resource.
pub fn project_material_markdown(title: &str, summary: Option<&str>, content: &str) -> (r: String)
    ensures
        r@ == spec_material_markdown(title@, match summary { Some(s) => Some(s@), None => None }, content@),
{
    let mut v: Vec<char> = Vec::new();
    push_str_chars(&mut v, "# ");
    push_str_chars(&mut v, title);
    v.push('\n');
    match summary {
        Some(s) => {
            v.push('\n');
            push_str_chars(&mut v, s);
            v.push('\n');
        },
        None => {},
    }
    v.push('\n');
    let body = string_of(&trim_chars(&chars_of(content)));
    push_str_chars(&mut v, body.as_str());
    string_of(&v)
}

} // verus!
